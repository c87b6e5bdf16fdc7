//! Parsing: tokens in, abstract syntax out, by precedence climbing.
//!
//! The grammar is described by spec-level functions over token sequences
//! (`sp_expr`, `sp_statement`, `sp_program`); each returns the parsed tree
//! together with the index of its last token, or the index where parsing
//! stopped on failure.  The executable parser is proved to produce exactly
//! the trees these functions describe.  A statement whose expression fails
//! to parse is dropped from the program without a diagnostic.

use vstd::prelude::*;

use crate::ast::{expr_view, prog_view, stmt_view, Expr, ExprS, Program, Stmt};
use crate::lexer::{lemma_next_token_progress, lemma_tokens_from_wf, spec_next_token, token_view, tokens_from, Lexer, Tok, Token};

verus! {

/// The binding strength of the operator a token denotes: `0` for
/// non-operators (the lowest level), then pipe, sum, and product.  Higher
/// levels are reserved for prefix and call expressions, which the current
/// grammar does not form.
pub open spec fn sp_prec(t: Tok) -> int {
    match t {
        Tok::Pipe => 1,
        Tok::Plus => 2,
        Tok::Minus => 2,
        Tok::Asterisk => 3,
        Tok::Slash => 3,
        _ => 0,
    }
}

/// The operator text carried by an arithmetic operator token.
pub open spec fn op_text(t: Tok) -> Seq<char> {
    match t {
        Tok::Plus => "+"@,
        Tok::Minus => "-"@,
        Tok::Asterisk => "*"@,
        Tok::Slash => "/"@,
        _ => ""@,
    }
}

/// The position the cursor reaches when it advances once: one step right,
/// except at the last token, where it stays.
pub open spec fn nxt(ts: Seq<Tok>, j: int) -> int {
    if j + 1 < ts.len() {
        j + 1
    } else {
        j
    }
}

/// Whether the climbing loop standing on the expression that ends at `j`
/// continues: the peeked token is no statement end and binds more strongly
/// than the caller's minimum precedence.
pub open spec fn sp_continue(ts: Seq<Tok>, j: int, minprec: int) -> bool {
    &&& j + 1 < ts.len()
    &&& ts[j + 1] != Tok::Semicolon
    &&& ts[j + 1] != Tok::EOF
    &&& minprec < sp_prec(ts[j + 1])
}

/// A primary expression at `i`: a literal, an identifier, or a
/// parenthesized sub-expression.  `Ok` carries the tree and the index of
/// its last token; `Err` carries the index where parsing stopped.
pub open spec fn sp_primary(ts: Seq<Tok>, i: int) -> Result<(ExprS, int), int>
    decreases ts.len() - i, 2int,
{
    if !(0 <= i < ts.len()) {
        Err(i)
    } else {
        match ts[i] {
            Tok::Int(v) => Ok((ExprS::Int(v), i)),
            Tok::Str(s) => Ok((ExprS::Lit(s), i)),
            Tok::Ident(s) => Ok((ExprS::Ident(s), i)),
            Tok::Lparen => sp_grouped(ts, i),
            _ => Err(i),
        }
    }
}

/// A parenthesized sub-expression whose `(` stands at `i`: the inner
/// expression parsed at the lowest precedence, requiring a matching `)`.
pub open spec fn sp_grouped(ts: Seq<Tok>, i: int) -> Result<(ExprS, int), int>
    decreases ts.len() - i, 1int,
{
    if !(0 <= i < ts.len()) {
        Err(i)
    } else {
        match sp_expr(ts, i + 1, 0) {
        Err(p) => Err(p),
            Ok((e, j)) => if j + 1 < ts.len() && ts[j + 1] == Tok::Rparen {
                Ok((e, j + 1))
            } else {
                Err(j)
            },
        }
    }
}

/// An arithmetic application whose operator stands at `k`, binding a
/// right operand parsed at the operator's own precedence to `left`.
pub open spec fn sp_binary(ts: Seq<Tok>, left: ExprS, k: int) -> Result<(ExprS, int), int>
    decreases ts.len() - k, 0int,
{
    if !(0 <= k < ts.len()) {
        Err(k)
    } else {
        match ts[k] {
            Tok::Plus | Tok::Minus | Tok::Asterisk | Tok::Slash => match sp_expr(
                ts,
                k + 1,
                sp_prec(ts[k]),
            ) {
                Err(p) => Err(p),
                Ok((right, j2)) => Ok(
                    (
                        ExprS::Bin {
                            left: Box::new(left),
                            op: op_text(ts[k]),
                            right: Box::new(right),
                        },
                        j2,
                    ),
                ),
            },
            _ => Err(k),
        }
    }
}

/// The climbing loop: while the peeked token binds more strongly than
/// `minprec`, extend `left` (which ends at `j`) with a binary or pipeline
/// application.
pub open spec fn sp_infix(ts: Seq<Tok>, left: ExprS, j: int, minprec: int) -> Result<
    (ExprS, int),
    int,
>
    decreases ts.len() - j, 3int,
{
    if !sp_continue(ts, j, minprec) {
        Ok((left, j))
    } else if ts[j + 1] == Tok::Pipe {
        match sp_expr(ts, j + 2, 1) {
            Err(p) => Err(p),
            Ok((right, j2)) => if j < j2 <= ts.len() {
                sp_infix(
                    ts,
                    ExprS::Pipe { left: Box::new(left), right: Box::new(right) },
                    j2,
                    minprec,
                )
            } else {
                Err(j2)
            },
        }
    } else {
        match sp_binary(ts, left, j + 1) {
            Err(p) => Err(p),
            Ok((newleft, j2)) => if j < j2 <= ts.len() {
                sp_infix(ts, newleft, j2, minprec)
            } else {
                Err(j2)
            },
        }
    }
}

/// A full expression at `i`, parsed with minimum precedence `minprec`.
pub open spec fn sp_expr(ts: Seq<Tok>, i: int, minprec: int) -> Result<(ExprS, int), int>
    decreases ts.len() - i, 4int,
{
    match sp_primary(ts, i) {
        Err(p) => Err(p),
        Ok((left, j)) => if i <= j <= ts.len() {
            sp_infix(ts, left, j, minprec)
        } else {
            Err(i)
        },
    }
}

/// A statement at `i`: one expression, optionally followed by `;`.
pub open spec fn sp_statement(ts: Seq<Tok>, i: int) -> Result<(ExprS, int), int> {
    match sp_expr(ts, i, 0) {
        Err(p) => Err(p),
        Ok((e, j)) => Ok(
            (
                e,
                if j + 1 < ts.len() && ts[j + 1] == Tok::Semicolon {
                    j + 1
                } else {
                    j
                },
            ),
        ),
    }
}

/// The whole program: statements parsed until the cursor stands on `EOF`,
/// those whose expression fails to parse silently dropped.
pub open spec fn sp_program(ts: Seq<Tok>, i: int) -> Seq<ExprS>
    decreases ts.len() - i,
{
    if !(0 <= i < ts.len()) || ts[i] == Tok::EOF {
        Seq::empty()
    } else {
        match sp_statement(ts, i) {
            Ok((e, j)) => {
                let n = nxt(ts, j);
                if i < n <= ts.len() {
                    seq![e] + sp_program(ts, n)
                } else {
                    seq![e]
                }
            },
            Err(p) => {
                let n = nxt(ts, p);
                if i < n <= ts.len() {
                    sp_program(ts, n)
                } else {
                    Seq::empty()
                }
            },
        }
    }
}

/// The parser: the fully lexed token stream and a cursor into it.
pub struct Parser {
    pub tokens: Vec<Token>,
    pub pos: usize,
}

impl Parser {
    /// The spec-level token stream.
    pub open spec fn toks(&self) -> Seq<Tok> {
        self.tokens@.map_values(|t: Token| token_view(t))
    }

    /// Well-formedness: the stream ends with its only `EOF`, and the
    /// cursor stands on a token.
    pub open spec fn wf(&self) -> bool {
        &&& self.toks().len() >= 1
        &&& (self.pos as int) < self.toks().len()
        &&& self.toks().last() == Tok::EOF
        &&& forall|i: int| 0 <= i < self.toks().len() - 1 ==> self.toks()[i] != Tok::EOF
    }

    /// Builds a parser by drawing every token of `lexer`, up to and
    /// including the first `EOF`.
    pub fn new(lexer: Lexer) -> (p: Parser)
        requires
            lexer.position <= lexer.input@.len(),
        ensures
            p.wf(),
            p.pos == 0,
            p.toks() == tokens_from(lexer.input@, lexer.position as int),
    {
        let ghost inp = lexer.input@;
        let ghost pos0 = lexer.position as int;
        let mut lexer = lexer;
        let mut tokens: Vec<Token> = Vec::new();
        let mut done = false;
        while !done
            invariant
                lexer.input@ == inp,
                0 <= lexer.position <= inp.len(),
                !done ==> tokens_from(inp, pos0) == tokens@.map_values(|t: Token| token_view(t))
                    + tokens_from(inp, lexer.position as int),
                done ==> tokens_from(inp, pos0) == tokens@.map_values(|t: Token| token_view(t)),
            decreases inp.len() - lexer.position + (if done {
                0int
            } else {
                1int
            }),
        {
            let ghost prev = lexer.position as int;
            let ghost acc = tokens@.map_values(|t: Token| token_view(t));
            proof {
                lemma_next_token_progress(inp, prev);
            }
            let t = lexer.next_token();
            let is_eof = matches!(t, Token::EOF);
            tokens.push(t);
            proof {
                assert(tokens@.map_values(|t: Token| token_view(t)) =~= acc.push(
                    token_view(tokens@.last()),
                ));
                if is_eof {
                    assert(tokens_from(inp, prev) == seq![Tok::EOF]);
                    assert(acc + seq![Tok::EOF] =~= acc.push(Tok::EOF));
                } else {
                    let (tk, np) = spec_next_token(inp, prev);
                    assert(tokens_from(inp, prev) == seq![tk] + tokens_from(inp, np));
                    assert(acc + (seq![tk] + tokens_from(inp, np)) =~= acc.push(tk) + tokens_from(
                        inp,
                        np,
                    ));
                }
            }
            if is_eof {
                done = true;
            }
        }
        proof {
            lemma_tokens_from_wf(inp, pos0);
        }
        Parser { tokens, pos: 0 }
    }

    /// Advances the cursor one token, staying on the final `EOF`.
    fn next_token(&mut self)
        requires
            old(self).wf(),
        ensures
            final(self).wf(),
            final(self).tokens == old(self).tokens,
            final(self).pos as int == nxt(old(self).toks(), old(self).pos as int),
    {
        let n = self.tokens.len();
        if self.pos < n - 1 {
            self.pos = self.pos + 1;
        }
    }

    /// The precedence level bound to a token.
    fn get_precedence(token: &Token) -> (p: u32)
        ensures
            p as int == sp_prec(token_view(*token)),
    {
        match token {
            Token::Pipe => 1,
            Token::Plus | Token::Minus => 2,
            Token::Asterisk | Token::Slash => 3,
            _ => 0,
        }
    }

    /// Whether the cursor stands on the final `EOF`.
    fn at_eof(&self) -> (b: bool)
        requires
            self.wf(),
        ensures
            b == (self.toks()[self.pos as int] == Tok::EOF),
    {
        matches!(&self.tokens[self.pos], Token::EOF)
    }

    /// Whether the climbing loop continues past the expression ending at
    /// the cursor.
    fn should_continue(&self, precedence: u32) -> (b: bool)
        requires
            self.wf(),
        ensures
            b == sp_continue(self.toks(), self.pos as int, precedence as int),
    {
        let n = self.tokens.len();
        if self.pos >= n - 1 {
            return false;
        }
        let pk = &self.tokens[self.pos + 1];
        if matches!(pk, Token::Semicolon | Token::EOF) {
            return false;
        }
        precedence < Self::get_precedence(pk)
    }

    /// Parses a parenthesized sub-expression; the cursor stands on `(`.
    fn parse_grouped_expression(&mut self) -> (r: Option<Expr>)
        requires
            old(self).wf(),
            old(self).toks()[old(self).pos as int] == Tok::Lparen,
        ensures
            final(self).wf(),
            final(self).tokens == old(self).tokens,
            old(self).pos <= final(self).pos,
            match (r, sp_grouped(old(self).toks(), old(self).pos as int)) {
                (Some(e), Ok((es, j))) => expr_view(e) == es && final(self).pos as int == j,
                (None, Err(p)) => final(self).pos as int == p,
                _ => false,
            },
        decreases old(self).toks().len() - old(self).pos, 1int,
    {
        self.next_token();
        let inner = self.parse_expression(0);
        match inner {
            None => None,
            Some(e) => {
                let n = self.tokens.len();
                if self.pos < n - 1 && matches!(&self.tokens[self.pos + 1], Token::Rparen) {
                    self.next_token();
                    Some(e)
                } else {
                    None
                }
            },
        }
    }

    /// Parses the application of the arithmetic operator under the cursor
    /// to `left` and a right operand parsed at the operator's precedence.
    fn parse_binary_expression(&mut self, left: Expr) -> (r: Option<Expr>)
        requires
            old(self).wf(),
        ensures
            final(self).wf(),
            final(self).tokens == old(self).tokens,
            old(self).pos <= final(self).pos,
            match (r, sp_binary(old(self).toks(), expr_view(left), old(self).pos as int)) {
                (Some(e), Ok((es, j))) => expr_view(e) == es && final(self).pos as int == j,
                (None, Err(p)) => final(self).pos as int == p,
                _ => false,
            },
        decreases old(self).toks().len() - old(self).pos, 0int,
    {
        let op: String = match &self.tokens[self.pos] {
            Token::Plus => "+".to_owned(),
            Token::Minus => "-".to_owned(),
            Token::Asterisk => "*".to_owned(),
            Token::Slash => "/".to_owned(),
            _ => {
                return None;
            },
        };
        let precedence = Self::get_precedence(&self.tokens[self.pos]);
        self.next_token();
        let right = self.parse_expression(precedence);
        match right {
            None => None,
            Some(re) => Some(
                Expr::BinaryOP { left: Box::new(left), op, right: Box::new(re) },
            ),
        }
    }

    /// Parses one expression with minimum precedence `precedence`; the
    /// cursor ends on the expression's last token.
    fn parse_expression(&mut self, precedence: u32) -> (r: Option<Expr>)
        requires
            old(self).wf(),
        ensures
            final(self).wf(),
            final(self).tokens == old(self).tokens,
            old(self).pos <= final(self).pos,
            match (r, sp_expr(old(self).toks(), old(self).pos as int, precedence as int)) {
                (Some(e), Ok((es, j))) => expr_view(e) == es && final(self).pos as int == j,
                (None, Err(p)) => final(self).pos as int == p,
                _ => false,
            },
        decreases old(self).toks().len() - old(self).pos, 2int,
    {
        let left0: Option<Expr> = match &self.tokens[self.pos] {
            Token::Int(v) => Some(Expr::Integer(*v)),
            Token::String(s) => Some(Expr::Literal(s.clone())),
            Token::Identifier(s) => Some(Expr::Identifier(s.clone())),
            Token::Lparen => self.parse_grouped_expression(),
            _ => None,
        };
        let mut left = match left0 {
            None => {
                return None;
            },
            Some(e) => e,
        };
        while self.should_continue(precedence)
            invariant
                self.wf(),
                self.tokens == old(self).tokens,
                old(self).pos <= self.pos,
                sp_expr(old(self).toks(), old(self).pos as int, precedence as int) == sp_infix(
                    self.toks(),
                    expr_view(left),
                    self.pos as int,
                    precedence as int,
                ),
            decreases self.toks().len() - self.pos,
        {
            let n = self.tokens.len();
            let is_pipe = matches!(&self.tokens[self.pos + 1], Token::Pipe);
            if is_pipe {
                self.next_token();
                self.next_token();
                let right = match self.parse_expression(1) {
                    None => {
                        return None;
                    },
                    Some(re) => re,
                };
                left = Expr::Pipeline { left: Box::new(left), right: Box::new(right) };
            } else {
                self.next_token();
                let newleft = match self.parse_binary_expression(left) {
                    None => {
                        return None;
                    },
                    Some(nl) => nl,
                };
                left = newleft;
            }
        }
        Some(left)
    }

    /// Parses one statement: an expression, then an optional `;`.
    fn parse_statement(&mut self) -> (r: Option<Stmt>)
        requires
            old(self).wf(),
        ensures
            final(self).wf(),
            final(self).tokens == old(self).tokens,
            old(self).pos <= final(self).pos,
            match (r, sp_statement(old(self).toks(), old(self).pos as int)) {
                (Some(s), Ok((es, j))) => stmt_view(s) == es && final(self).pos as int == j,
                (None, Err(p)) => final(self).pos as int == p,
                _ => false,
            },
    {
        let expr = match self.parse_expression(0) {
            None => {
                return None;
            },
            Some(e) => e,
        };
        let n = self.tokens.len();
        if self.pos < n - 1 && matches!(&self.tokens[self.pos + 1], Token::Semicolon) {
            self.next_token();
        }
        Some(Stmt::Expression(expr))
    }

    /// Consumes the token stream to exhaustion — the cursor ends on the
    /// final `EOF` — and returns the program it describes.
    pub fn parse_program(&mut self) -> (p: Program)
        requires
            old(self).wf(),
        ensures
            final(self).wf(),
            final(self).toks()[final(self).pos as int] == Tok::EOF,
            prog_view(p) == sp_program(old(self).toks(), old(self).pos as int),
    {
        let mut program = Program { statements: Vec::new() };
        while !self.at_eof()
            invariant
                self.wf(),
                self.tokens == old(self).tokens,
                sp_program(old(self).toks(), old(self).pos as int) == program.statements@
                    .map_values(|s: Stmt| stmt_view(s)) + sp_program(
                    self.toks(),
                    self.pos as int,
                ),
            decreases self.toks().len() - self.pos,
        {
            let ghost i = self.pos as int;
            let ghost acc = program.statements@.map_values(|s: Stmt| stmt_view(s));
            let stmt = self.parse_statement();
            match stmt {
                Some(s) => {
                    let ghost sv = stmt_view(s);
                    let ghost j = self.pos as int;
                    program.statements.push(s);
                    self.next_token();
                    proof {
                        assert(program.statements@.map_values(|s: Stmt| stmt_view(s)) =~= acc.push(
                            sv,
                        ));
                        assert(sp_program(old(self).toks(), i) == seq![sv] + sp_program(
                            self.toks(),
                            self.pos as int,
                        ));
                        assert(acc + (seq![sv] + sp_program(self.toks(), self.pos as int)) =~= acc.push(
                            sv,
                        ) + sp_program(self.toks(), self.pos as int));
                    }
                },
                None => {
                    self.next_token();
                },
            }
        }
        proof {
            assert(prog_view(program) =~= program.statements@.map_values(|s: Stmt| stmt_view(s)));
            assert(sp_program(self.toks(), self.pos as int) == Seq::<ExprS>::empty());
            assert(program.statements@.map_values(|s: Stmt| stmt_view(s)) + Seq::<
                ExprS,
            >::empty() =~= program.statements@.map_values(|s: Stmt| stmt_view(s)));
        }
        program
    }
}

} // verus!
