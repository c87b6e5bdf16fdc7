//! Lexical analysis: characters in, tokens out.
//!
//! `spec_next_token` is the mathematical description of one lexing step; the
//! executable `Lexer::next_token` is proved to follow it exactly.  Once the
//! input is exhausted the lexer answers `EOF` forever.

use vstd::prelude::*;

use crate::text::{
    char_is_alphabetic, char_is_alphanumeric, char_is_numeric, char_is_whitespace,
    chars_to_string, dec_or_zero, is_alphabetic_char, is_numeric_char, is_whitespace_char,
    parse_dec_or_zero,
};

verus! {

/// An atomic lexical unit.
#[derive(Debug, PartialEq, Clone)]
pub enum Token {
    String(String),
    Int(i64),
    Plus,
    Minus,
    Asterisk,
    Slash,
    Lparen,
    Rparen,
    Pipe,
    Semicolon,
    Identifier(String),
    EOF,
}

/// The spec-level token: `Token` with strings replaced by their views.
#[verifier::ext_equal]
pub enum Tok {
    Str(Seq<char>),
    Int(i64),
    Plus,
    Minus,
    Asterisk,
    Slash,
    Lparen,
    Rparen,
    Pipe,
    Semicolon,
    Ident(Seq<char>),
    EOF,
}

/// The model of an executable token.
pub open spec fn token_view(t: Token) -> Tok {
    match t {
        Token::String(s) => Tok::Str(s@),
        Token::Int(v) => Tok::Int(v),
        Token::Plus => Tok::Plus,
        Token::Minus => Tok::Minus,
        Token::Asterisk => Tok::Asterisk,
        Token::Slash => Tok::Slash,
        Token::Lparen => Tok::Lparen,
        Token::Rparen => Tok::Rparen,
        Token::Pipe => Tok::Pipe,
        Token::Semicolon => Tok::Semicolon,
        Token::Identifier(s) => Tok::Ident(s@),
        Token::EOF => Tok::EOF,
    }
}

/// The first position at or after `pos` whose character fails `p`, or the
/// end of the input.
pub open spec fn scan_while(inp: Seq<char>, pos: int, p: spec_fn(char) -> bool) -> int
    decreases inp.len() - pos,
{
    if 0 <= pos < inp.len() && p(inp[pos]) {
        scan_while(inp, pos + 1, p)
    } else {
        pos
    }
}

/// Where a whitespace run starting at `pos` ends.
pub open spec fn ws_end(inp: Seq<char>, pos: int) -> int {
    scan_while(inp, pos, |c: char| is_whitespace_char(c))
}

/// Where a string literal's body starting at `pos` ends: the next `"` or
/// the end of the input.
pub open spec fn str_end(inp: Seq<char>, pos: int) -> int {
    scan_while(inp, pos, |c: char| c != '"')
}

/// Where an identifier starting at `pos` ends.
pub open spec fn ident_end(inp: Seq<char>, pos: int) -> int {
    scan_while(inp, pos, |c: char| is_alphabetic_char(c) || is_numeric_char(c))
}

/// Where a numeric literal starting at `pos` ends.
pub open spec fn num_end(inp: Seq<char>, pos: int) -> int {
    scan_while(inp, pos, |c: char| is_numeric_char(c))
}

/// One lexing step: the token found at `pos0` after skipping whitespace,
/// and the position just past it.
pub open spec fn spec_next_token(inp: Seq<char>, pos0: int) -> (Tok, int) {
    let pos = ws_end(inp, pos0);
    if !(0 <= pos < inp.len()) {
        (Tok::EOF, pos)
    } else {
        let c = inp[pos];
        if c == '|' {
            (Tok::Pipe, pos + 1)
        } else if c == ';' {
            (Tok::Semicolon, pos + 1)
        } else if c == '+' {
            (Tok::Plus, pos + 1)
        } else if c == '-' {
            (Tok::Minus, pos + 1)
        } else if c == '*' {
            (Tok::Asterisk, pos + 1)
        } else if c == '/' {
            (Tok::Slash, pos + 1)
        } else if c == '(' {
            (Tok::Lparen, pos + 1)
        } else if c == ')' {
            (Tok::Rparen, pos + 1)
        } else if c == '"' {
            let close = str_end(inp, pos + 1);
            (
                Tok::Str(inp.subrange(pos + 1, close)),
                if close < inp.len() {
                    close + 1
                } else {
                    close
                },
            )
        } else if is_alphabetic_char(c) {
            (Tok::Ident(inp.subrange(pos, ident_end(inp, pos))), ident_end(inp, pos))
        } else if is_numeric_char(c) {
            (Tok::Int(dec_or_zero(inp.subrange(pos, num_end(inp, pos)))), num_end(inp, pos))
        } else {
            (Tok::EOF, pos + 1)
        }
    }
}

proof fn lemma_ws_end_bounds(inp: Seq<char>, pos: int)
    requires
        0 <= pos <= inp.len(),
    ensures
        pos <= ws_end(inp, pos) <= inp.len(),
    decreases inp.len() - pos,
{
    if pos < inp.len() && is_whitespace_char(inp[pos]) {
        lemma_ws_end_bounds(inp, pos + 1);
    }
}

proof fn lemma_str_end_bounds(inp: Seq<char>, pos: int)
    requires
        0 <= pos <= inp.len(),
    ensures
        pos <= str_end(inp, pos) <= inp.len(),
    decreases inp.len() - pos,
{
    if pos < inp.len() && inp[pos] != '"' {
        lemma_str_end_bounds(inp, pos + 1);
    }
}

proof fn lemma_ident_end_bounds(inp: Seq<char>, pos: int)
    requires
        0 <= pos <= inp.len(),
    ensures
        pos <= ident_end(inp, pos) <= inp.len(),
    decreases inp.len() - pos,
{
    if pos < inp.len() && (is_alphabetic_char(inp[pos]) || is_numeric_char(inp[pos])) {
        lemma_ident_end_bounds(inp, pos + 1);
    }
}

proof fn lemma_num_end_bounds(inp: Seq<char>, pos: int)
    requires
        0 <= pos <= inp.len(),
    ensures
        pos <= num_end(inp, pos) <= inp.len(),
    decreases inp.len() - pos,
{
    if pos < inp.len() && is_numeric_char(inp[pos]) {
        lemma_num_end_bounds(inp, pos + 1);
    }
}

/// A lexing step never moves backwards, never leaves the input, and stands
/// still only when it answers `EOF`.
pub proof fn lemma_next_token_progress(inp: Seq<char>, pos: int)
    requires
        0 <= pos <= inp.len(),
    ensures
        ({
            let (t, p) = spec_next_token(inp, pos);
            pos <= p <= inp.len() && (t != Tok::EOF ==> pos < p)
        }),
{
    lemma_ws_end_bounds(inp, pos);
    let w = ws_end(inp, pos);
    if 0 <= w < inp.len() {
        let c = inp[w];
        if c == '"' {
            lemma_str_end_bounds(inp, w + 1);
        } else if !(c == '|' || c == ';' || c == '+' || c == '-' || c == '*' || c == '/' || c
            == '(' || c == ')') {
            if is_alphabetic_char(c) {
                assert(ident_end(inp, w) == ident_end(inp, w + 1));
                lemma_ident_end_bounds(inp, w + 1);
            } else if is_numeric_char(c) {
                assert(num_end(inp, w) == num_end(inp, w + 1));
                lemma_num_end_bounds(inp, w + 1);
            }
        }
    }
}

/// The whole token stream of `inp` from `pos` on: every token up to and
/// including the first `EOF`.
pub open spec fn tokens_from(inp: Seq<char>, pos: int) -> Seq<Tok>
    decreases inp.len() - pos,
{
    let (t, p) = spec_next_token(inp, pos);
    if t == Tok::EOF {
        seq![Tok::EOF]
    } else if pos < p <= inp.len() {
        seq![t] + tokens_from(inp, p)
    } else {
        seq![Tok::EOF]
    }
}

/// A token stream is never empty, ends with `EOF`, and holds `EOF` nowhere
/// else.
pub proof fn lemma_tokens_from_wf(inp: Seq<char>, pos: int)
    requires
        0 <= pos <= inp.len(),
    ensures
        ({
            let ts = tokens_from(inp, pos);
            ts.len() >= 1 && ts.last() == Tok::EOF && (forall|i: int|
                0 <= i < ts.len() - 1 ==> ts[i] != Tok::EOF)
        }),
    decreases inp.len() - pos,
{
    let (t, p) = spec_next_token(inp, pos);
    lemma_next_token_progress(inp, pos);
    if t != Tok::EOF {
        lemma_tokens_from_wf(inp, p);
        let rest = tokens_from(inp, p);
        let ts = tokens_from(inp, pos);
        assert(ts == seq![t] + rest);
        assert(ts.last() == rest.last());
        assert(forall|i: int| 1 <= i < ts.len() - 1 ==> ts[i] == rest[i - 1]);
    }
}

/// The lexer: a character buffer and a cursor.
pub struct Lexer {
    pub input: Vec<char>,
    pub position: usize,
}

impl Lexer {
    /// Builds a lexer over `input`, positioned at its start.
    pub fn new(input: &str) -> (l: Lexer)
        ensures
            l.input@ == input@,
            l.position == 0,
    {
        let n = input.unicode_len();
        let mut v: Vec<char> = Vec::new();
        let mut i: usize = 0;
        while i < n
            invariant
                i <= n,
                n == input@.len(),
                v@ == input@.take(i as int),
            decreases n - i,
        {
            v.push(input.get_char(i));
            proof {
                assert(v@ =~= input@.take(i + 1));
            }
            i = i + 1;
        }
        proof {
            assert(v@ =~= input@);
        }
        Lexer { input: v, position: 0 }
    }

    fn skip_whitespace(&mut self)
        ensures
            final(self).input == old(self).input,
            final(self).position as int == ws_end(old(self).input@, old(self).position as int),
    {
        while self.position < self.input.len() && char_is_whitespace(self.input[self.position])
            invariant
                self.input == old(self).input,
                old(self).position <= self.position,
                self.position <= self.input@.len() || self.position == old(self).position,
                ws_end(self.input@, old(self).position as int) == ws_end(
                    self.input@,
                    self.position as int,
                ),
            decreases self.input@.len() - self.position,
        {
            self.position = self.position + 1;
        }
    }

    /// The characters `self.input[start .. end]`, as a string.
    fn collect_range(&self, start: usize, end: usize) -> (s: String)
        requires
            start <= end <= self.input@.len(),
        ensures
            s@ == self.input@.subrange(start as int, end as int),
    {
        let mut v: Vec<char> = Vec::new();
        let mut k = start;
        while k < end
            invariant
                start <= k <= end <= self.input@.len(),
                v@ == self.input@.subrange(start as int, k as int),
            decreases end - k,
        {
            v.push(self.input[k]);
            proof {
                assert(v@ =~= self.input@.subrange(start as int, k + 1));
            }
            k = k + 1;
        }
        chars_to_string(v)
    }

    fn read_string(&mut self) -> (t: Token)
        requires
            old(self).position < old(self).input@.len(),
    ensures
            final(self).input == old(self).input,
            ({
                let start = old(self).position + 1;
                let close = str_end(old(self).input@, start as int);
                token_view(t) == Tok::Str(old(self).input@.subrange(start as int, close))
                    && final(self).position as int == (if close < old(self).input@.len() {
                    close + 1
                } else {
                    close
                })
            }),
    {
        let n = self.input.len();
        proof {
            assert(self.position < n);
        }
        self.position = self.position + 1;
        let start = self.position;
        while self.position < self.input.len() && self.input[self.position] != '"'
            invariant
                self.input == old(self).input,
                start <= self.position,
                self.position <= self.input@.len(),
                str_end(self.input@, start as int) == str_end(self.input@, self.position as int),
            decreases self.input@.len() - self.position,
        {
            self.position = self.position + 1;
        }
        let content = self.collect_range(start, self.position);
        if self.position < self.input.len() {
            self.position = self.position + 1;
        }
        Token::String(content)
    }

    fn read_identifier(&mut self) -> (t: Token)
        requires
            old(self).position <= old(self).input@.len(),
        ensures
            final(self).input == old(self).input,
            ({
                let start = old(self).position;
                let end = ident_end(old(self).input@, start as int);
                token_view(t) == Tok::Ident(old(self).input@.subrange(start as int, end))
                    && final(self).position as int == end
            }),
    {
        let start = self.position;
        while self.position < self.input.len() && char_is_alphanumeric(
            self.input[self.position],
        )
            invariant
                self.input == old(self).input,
                start <= self.position,
                self.position <= self.input@.len(),
                ident_end(self.input@, start as int) == ident_end(
                    self.input@,
                    self.position as int,
                ),
            decreases self.input@.len() - self.position,
        {
            self.position = self.position + 1;
        }
        let content = self.collect_range(start, self.position);
        Token::Identifier(content)
    }

    fn read_number(&mut self) -> (t: Token)
        requires
            old(self).position <= old(self).input@.len(),
        ensures
            final(self).input == old(self).input,
            ({
                let start = old(self).position;
                let end = num_end(old(self).input@, start as int);
                token_view(t) == Tok::Int(dec_or_zero(old(self).input@.subrange(start as int, end)))
                    && final(self).position as int == end
            }),
    {
        let start = self.position;
        while self.position < self.input.len() && char_is_numeric(self.input[self.position])
            invariant
                self.input == old(self).input,
                start <= self.position,
                self.position <= self.input@.len(),
                num_end(self.input@, start as int) == num_end(self.input@, self.position as int),
            decreases self.input@.len() - self.position,
        {
            self.position = self.position + 1;
        }
        let value = parse_dec_or_zero(&self.input, start, self.position);
        Token::Int(value)
    }

    /// Returns the next token and advances past it; once the input is
    /// exhausted, keeps returning `EOF` without moving.
    pub fn next_token(&mut self) -> (t: Token)
        ensures
            final(self).input == old(self).input,
            ({
                let (tk, p) = spec_next_token(old(self).input@, old(self).position as int);
                token_view(t) == tk && final(self).position as int == p
            }),
    {
        self.skip_whitespace();

        if self.position >= self.input.len() {
            return Token::EOF;
        }

        let ch = self.input[self.position];

        match ch {
            '|' => {
                self.position = self.position + 1;
                Token::Pipe
            },
            ';' => {
                self.position = self.position + 1;
                Token::Semicolon
            },
            '+' => {
                self.position = self.position + 1;
                Token::Plus
            },
            '-' => {
                self.position = self.position + 1;
                Token::Minus
            },
            '*' => {
                self.position = self.position + 1;
                Token::Asterisk
            },
            '/' => {
                self.position = self.position + 1;
                Token::Slash
            },
            '(' => {
                self.position = self.position + 1;
                Token::Lparen
            },
            ')' => {
                self.position = self.position + 1;
                Token::Rparen
            },
            '"' => self.read_string(),
            _ => {
                if char_is_alphabetic(ch) {
                    self.read_identifier()
                } else if char_is_numeric(ch) {
                    self.read_number()
                } else {
                    self.position = self.position + 1;
                    Token::EOF
                }
            },
        }
    }
}

} // verus!
