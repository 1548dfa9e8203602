//! The lexer: turns a character stream into a sequence of tokens, each
//! tagged with the line and column at which it was completed.
//!
//! Whitespace (space, tab, newline) separates tokens; a newline starts a
//! new line at column zero.  Identifiers start with an ASCII letter and
//! continue with letters or digits; reserved words are recognized by
//! exact spelling.  A run of digits is an integer literal, or a float
//! literal when a dot follows; the sign is never part of a literal.  The
//! pair `:=` is one token, and `:` followed by anything else is an error.

use vstd::prelude::*;
use crate::float::{FloatBits, float_of_literal, float_from_literal, is_digit_char, is_float_literal};
use crate::parsing::text::str_eq;
use crate::parsing::token::{Operator, Token, TokenType, TokenTypeV, TokenV};

verus! {

/// A lexical failure: a character no token can start with, a `:` not
/// followed by `=`, or an integer literal beyond the integer range.
/// Positions name the line and column at which the failure was noticed.
#[derive(Clone, Copy, PartialEq, Eq, Structural, Debug)]
pub enum LexError {
    UnexpectedChar { c: char, line: usize, char: usize },
    ExpectedEquals { found: Option<char>, line: usize, char: usize },
    IntegerOverflow { line: usize, char: usize },
}

/// A modelled token together with the span of input it covers and the
/// position recorded on it.
pub struct SpannedV {
    pub token: TokenTypeV,
    pub start: int,
    pub end: int,
    pub line: int,
    pub char: int,
}

/// The token model a spanned token carries.
pub open spec fn spanned_token(sp: SpannedV) -> TokenV {
    TokenV { t_type: sp.token, line: sp.line, char: sp.char }
}

/// The token models of a spanned sequence.
pub open spec fn spanned_tokens(sp: Seq<SpannedV>) -> Seq<TokenV> {
    sp.map_values(|x: SpannedV| spanned_token(x))
}

/// The characters the lexer skips between tokens.
pub open spec fn is_whitespace_char(c: char) -> bool {
    c == ' ' || c == '\t' || c == '\n'
}

/// The characters an identifier may start with.
pub open spec fn is_letter_char(c: char) -> bool {
    ('a' <= c && c <= 'z') || ('A' <= c && c <= 'Z')
}

/// The characters an identifier may continue with.
pub open spec fn is_id_char(c: char) -> bool {
    is_letter_char(c) || is_digit_char(c)
}

/// The first position at or after `i` whose character fails the
/// predicate, or the end of the input.
pub open spec fn scan_while(s: Seq<char>, i: int, pred: spec_fn(char) -> bool) -> int
    decreases s.len() - i,
{
    if i < 0 || i >= s.len() {
        i
    } else if pred(s[i]) {
        scan_while(s, i + 1, pred)
    } else {
        i
    }
}

/// What a scan returns: a run of matching characters ending at the first
/// non-matching position.
pub proof fn lemma_scan_while(s: Seq<char>, i: int, pred: spec_fn(char) -> bool)
    requires
        0 <= i <= s.len(),
    ensures
        i <= scan_while(s, i, pred) <= s.len(),
        forall|j: int| i <= j < scan_while(s, i, pred) ==> pred(#[trigger] s[j]),
        scan_while(s, i, pred) < s.len() ==> !pred(s[scan_while(s, i, pred)]),
    decreases s.len() - i,
{
    if i < s.len() && pred(s[i]) {
        lemma_scan_while(s, i + 1, pred);
    }
}

/// The numeric value of a digit character.
pub open spec fn digit_val(c: char) -> int {
    (c as u32) - 48
}

/// The value of a run of decimal digits.
pub open spec fn dec_val(s: Seq<char>) -> int
    decreases s.len(),
{
    if s.len() == 0 {
        0
    } else {
        dec_val(s.drop_last()) * 10 + digit_val(s.last())
    }
}

/// A digit run's value is never negative.
pub proof fn lemma_dec_val_nonneg(s: Seq<char>)
    requires
        forall|j: int| 0 <= j < s.len() ==> is_digit_char(#[trigger] s[j]),
    ensures
        dec_val(s) >= 0,
    decreases s.len(),
{
    if s.len() > 0 {
        lemma_dec_val_nonneg(s.drop_last());
    }
}

/// Extending a digit run never shrinks its value.
pub proof fn lemma_dec_val_prefix(s: Seq<char>, a: int, b: int, c: int)
    requires
        0 <= a <= b <= c <= s.len(),
        forall|j: int| a <= j < c ==> is_digit_char(#[trigger] s[j]),
    ensures
        dec_val(s.subrange(a, b)) <= dec_val(s.subrange(a, c)),
    decreases c - b,
{
    if b < c {
        lemma_dec_val_prefix(s, a, b + 1, c);
        let p = s.subrange(a, b);
        let q = s.subrange(a, b + 1);
        assert(q.drop_last() =~= p);
        assert(q.last() == s[b]);
        lemma_dec_val_nonneg(p);
        assert(dec_val(q) == dec_val(p) * 10 + digit_val(s[b]));
        assert(digit_val(s[b]) >= 0);
        assert(dec_val(p) * 10 >= dec_val(p));
    }
}

/// The keyword table: the reserved spellings and what they lex to; any
/// other identifier run is an `Id`.
pub open spec fn keyword_or_id(w: Seq<char>) -> TokenTypeV {
    if w == "Fn"@ {
        TokenTypeV::Fn
    } else if w == "true"@ {
        TokenTypeV::BooleanLiteral(true)
    } else if w == "false"@ {
        TokenTypeV::BooleanLiteral(false)
    } else if w == "if"@ {
        TokenTypeV::If
    } else if w == "while"@ {
        TokenTypeV::While
    } else if w == "for"@ {
        TokenTypeV::For
    } else if w == "print"@ {
        TokenTypeV::Print
    } else {
        TokenTypeV::Id(w)
    }
}

/// The token starting at a non-whitespace position, with the position
/// just past it; or the lexical failure it raises.  `line` and `col` name
/// the position of `i` in the input.
pub open spec fn spec_token_at(s: Seq<char>, i: int, line: int, col: int) -> Result<
    (TokenTypeV, int),
    LexError,
>
    recommends
        0 <= i < s.len(),
{
    let c = s[i];
    if c == ',' {
        Ok((TokenTypeV::Comma, i + 1))
    } else if c == ';' {
        Ok((TokenTypeV::Semicolon, i + 1))
    } else if c == '{' {
        Ok((TokenTypeV::LCurlyBracket, i + 1))
    } else if c == '}' {
        Ok((TokenTypeV::RCurlyBracket, i + 1))
    } else if c == '(' {
        Ok((TokenTypeV::LRoundBracket, i + 1))
    } else if c == ')' {
        Ok((TokenTypeV::RRoundBracket, i + 1))
    } else if c == '>' {
        Ok((TokenTypeV::Operator(Operator::Gt, 0, false), i + 1))
    } else if c == '<' {
        Ok((TokenTypeV::Operator(Operator::Lt, 0, false), i + 1))
    } else if c == '=' {
        Ok((TokenTypeV::Operator(Operator::Eq, 0, false), i + 1))
    } else if c == '+' {
        Ok((TokenTypeV::Operator(Operator::Add, 1, true), i + 1))
    } else if c == '-' {
        Ok((TokenTypeV::Operator(Operator::Sub, 1, true), i + 1))
    } else if c == '&' {
        Ok((TokenTypeV::Operator(Operator::And, 1, true), i + 1))
    } else if c == '|' {
        Ok((TokenTypeV::Operator(Operator::Or, 1, true), i + 1))
    } else if c == '*' {
        Ok((TokenTypeV::Operator(Operator::Mul, 2, true), i + 1))
    } else if c == '/' {
        Ok((TokenTypeV::Operator(Operator::Div, 2, true), i + 1))
    } else if c == '^' {
        Ok((TokenTypeV::Operator(Operator::Pow, 3, true), i + 1))
    } else if c == ':' {
        if i + 1 < s.len() {
            if s[i + 1] == '=' {
                Ok((TokenTypeV::Assignment, i + 2))
            } else {
                Err(
                    LexError::ExpectedEquals {
                        found: Some(s[i + 1]),
                        line: line as usize,
                        char: (col + 1) as usize,
                    },
                )
            }
        } else {
            Err(
                LexError::ExpectedEquals {
                    found: None,
                    line: line as usize,
                    char: (col + 1) as usize,
                },
            )
        }
    } else if is_digit_char(c) {
        let j = scan_while(s, i, |ch: char| is_digit_char(ch));
        if j < s.len() && s[j] == '.' {
            let k = scan_while(s, j + 1, |ch: char| is_digit_char(ch));
            Ok((TokenTypeV::FloatLiteral(float_of_literal(s.subrange(i, k))), k))
        } else {
            let v = dec_val(s.subrange(i, j));
            if v <= i32::MAX {
                Ok((TokenTypeV::IntegerLiteral(v as i32), j))
            } else {
                Err(LexError::IntegerOverflow { line: line as usize, char: col as usize })
            }
        }
    } else if is_letter_char(c) {
        let j = scan_while(s, i, |ch: char| is_id_char(ch));
        Ok((keyword_or_id(s.subrange(i, j)), j))
    } else {
        Err(LexError::UnexpectedChar { c, line: line as usize, char: col as usize })
    }
}

/// The tokens of the input from a position onward, with their spans; or
/// the first lexical failure.  `line` and `col` name the position of `i`.
pub open spec fn spec_lex_from(s: Seq<char>, i: int, line: int, col: int) -> Result<
    Seq<SpannedV>,
    LexError,
>
    decreases s.len() - i,
{
    if i < 0 || i >= s.len() {
        Ok(Seq::empty())
    } else if is_whitespace_char(s[i]) {
        if s[i] == '\n' {
            spec_lex_from(s, i + 1, line + 1, 0)
        } else {
            spec_lex_from(s, i + 1, line, col + 1)
        }
    } else {
        match spec_token_at(s, i, line, col) {
            Err(e) => Err(e),
            Ok((t, end)) => if i < end <= s.len() {
                let col2 = col + (end - i);
                match spec_lex_from(s, end, line, col2) {
                    Err(e) => Err(e),
                    Ok(rest) => Ok(
                        seq![
                            SpannedV { token: t, start: i, end: end, line: line, char: col2 },
                        ] + rest,
                    ),
                }
            } else {
                // a token always covers at least one character and stays
                // within the input; this branch is never taken
                Err(LexError::UnexpectedChar { c: s[i], line: line as usize, char: col as usize })
            },
        }
    }
}

/// Every token found covers at least one character and stays within the
/// input.
pub proof fn lemma_token_at_bounds(s: Seq<char>, i: int, line: int, col: int)
    requires
        0 <= i < s.len(),
    ensures
        match spec_token_at(s, i, line, col) {
            Ok((t, end)) => i < end <= s.len(),
            Err(_) => true,
        },
{
    let c = s[i];
    if is_digit_char(c) && !(c == ',' || c == ';' || c == '{' || c == '}' || c == '(' || c == ')'
        || c == '>' || c == '<' || c == '=' || c == '+' || c == '-' || c == '&' || c == '|' || c
        == '*' || c == '/' || c == '^' || c == ':') {
        lemma_scan_while(s, i, |ch: char| is_digit_char(ch));
        let j = scan_while(s, i, |ch: char| is_digit_char(ch));
        assert(j > i) by {
            assert(is_digit_char(s[i]));
        }
        if j < s.len() && s[j] == '.' {
            lemma_scan_while(s, j + 1, |ch: char| is_digit_char(ch));
        }
    } else if is_letter_char(c) {
        lemma_scan_while(s, i, |ch: char| is_id_char(ch));
        assert(is_id_char(s[i]));
    }
}

/// The tokens of a whole input, with their spans; or the first lexical
/// failure.
pub open spec fn spec_lex(s: Seq<char>) -> Result<Seq<SpannedV>, LexError> {
    spec_lex_from(s, 0, 0, 0)
}

/// Mathematical model of a lexer: the input and the cursor into it.
pub struct LexerV {
    pub input: Seq<char>,
    pub pos: int,
    pub line: int,
    pub col: int,
}

/// The lexer: one pass over the input characters, with one-character
/// lookahead, producing tokens until the input is exhausted.
pub struct Lexer<'a> {
    input: &'a str,
    pos: usize,
    line: usize,
    col: usize,
}

impl<'a> View for Lexer<'a> {
    type V = LexerV;

    closed spec fn view(&self) -> LexerV {
        LexerV {
            input: self.input@,
            pos: self.pos as int,
            line: self.line as int,
            col: self.col as int,
        }
    }
}

impl<'a> Lexer<'a> {
    /// The cursor lies within the input, and the recorded line and column
    /// never exceed the number of characters consumed.
    pub open spec fn inv(&self) -> bool {
        0 <= self@.pos <= self@.input.len() && 0 <= self@.line <= self@.pos && 0 <= self@.col
            <= self@.pos
    }

    /// A lexer at the start of the input.
    pub fn new(input: &'a String) -> (r: Self)
        ensures
            r@ == (LexerV { input: input@, pos: 0, line: 0, col: 0 }),
            r.inv(),
    {
        Self { input: input.as_str(), pos: 0, line: 0, col: 0 }
    }

    /// Consumes one character, updating the position: a newline starts a
    /// new line at column zero, anything else advances the column.
    fn skip_char(&mut self)
        requires
            old(self).inv(),
            old(self)@.pos < old(self)@.input.len(),
        ensures
            final(self).inv(),
            final(self)@.input == old(self)@.input,
            final(self)@.pos == old(self)@.pos + 1,
            old(self)@.input[old(self)@.pos] == '\n' ==> final(self)@.line == old(self)@.line + 1
                && final(self)@.col == 0,
            old(self)@.input[old(self)@.pos] != '\n' ==> final(self)@.line == old(self)@.line
                && final(self)@.col == old(self)@.col + 1,
    {
        let n = self.input.unicode_len();
        let c = self.input.get_char(self.pos);
        if c == '\n' {
            self.line = self.line + 1;
            self.col = 0;
        } else {
            self.col = self.col + 1;
        }
        self.pos = self.pos + 1;
    }

    /// Whether the cursor sits on an identifier character.
    fn at_id_char(&self) -> (r: bool)
        ensures
            r == (self@.pos < self@.input.len() && is_id_char(self@.input[self@.pos])),
    {
        if self.pos >= self.input.unicode_len() {
            return false;
        }
        let c = self.input.get_char(self.pos);
        (c >= 'a' && c <= 'z') || (c >= 'A' && c <= 'Z') || (c >= '0' && c <= '9')
    }

    /// Whether the cursor sits on a digit.
    fn at_digit_char(&self) -> (r: bool)
        ensures
            r == (self@.pos < self@.input.len() && is_digit_char(self@.input[self@.pos])),
    {
        if self.pos >= self.input.unicode_len() {
            return false;
        }
        let c = self.input.get_char(self.pos);
        c >= '0' && c <= '9'
    }

    /// Consumes the identifier or keyword starting at the cursor.
    fn next_id(&mut self) -> (r: Token)
        requires
            old(self).inv(),
            old(self)@.pos < old(self)@.input.len(),
            is_letter_char(old(self)@.input[old(self)@.pos]),
        ensures
            final(self).inv(),
            final(self)@.input == old(self)@.input,
            ({
                let s = old(self)@.input;
                let i = old(self)@.pos;
                let end = scan_while(s, i, |ch: char| is_id_char(ch));
                &&& final(self)@.pos == end
                &&& final(self)@.line == old(self)@.line
                &&& final(self)@.col == old(self)@.col + (end - i)
                &&& r@ == (TokenV {
                    t_type: keyword_or_id(s.subrange(i, end)),
                    line: final(self)@.line,
                    char: final(self)@.col,
                })
            }),
    {
        let ghost s = self@.input;
        let ghost i = self@.pos;
        let start = self.pos;
        proof {
            lemma_scan_while(s, i, |ch: char| is_id_char(ch));
        }
        while self.at_id_char()
            invariant
                self.inv(),
                self@.input == s,
                start as int == i,
                i <= self@.pos <= s.len(),
                self@.line == old(self)@.line,
                self@.col == old(self)@.col + (self@.pos - i),
                scan_while(s, i, |ch: char| is_id_char(ch)) == scan_while(
                    s,
                    self@.pos,
                    |ch: char| is_id_char(ch),
                ),
            decreases s.len() - self@.pos,
        {
            self.skip_char();
        }
        proof {
            lemma_scan_while(s, self@.pos, |ch: char| is_id_char(ch));
            assert(scan_while(s, i, |ch: char| is_id_char(ch)) == self@.pos);
        }
        let word = self.input.substring_char(start, self.pos);
        let t_type: TokenType = if str_eq(word, "Fn") {
            TokenType::Fn
        } else if str_eq(word, "true") {
            TokenType::BooleanLiteral(true)
        } else if str_eq(word, "false") {
            TokenType::BooleanLiteral(false)
        } else if str_eq(word, "if") {
            TokenType::If
        } else if str_eq(word, "while") {
            TokenType::While
        } else if str_eq(word, "for") {
            TokenType::For
        } else if str_eq(word, "print") {
            TokenType::Print
        } else {
            TokenType::Id(word.to_owned())
        };
        Token::new(t_type, self.line, self.col)
    }

    /// Consumes the number literal starting at the cursor: a digit run,
    /// or a float literal when a dot follows the digits.
    fn next_number(&mut self) -> (r: Result<Token, LexError>)
        requires
            old(self).inv(),
            old(self)@.pos < old(self)@.input.len(),
            is_digit_char(old(self)@.input[old(self)@.pos]),
            !is_letter_char(old(self)@.input[old(self)@.pos]),
        ensures
            final(self).inv(),
            final(self)@.input == old(self)@.input,
            ({
                let s = old(self)@.input;
                let i = old(self)@.pos;
                match spec_token_at(s, i, old(self)@.line, old(self)@.col) {
                    Ok((t, end)) => match r {
                        Ok(tok) => {
                            &&& final(self)@.pos == end
                            &&& final(self)@.line == old(self)@.line
                            &&& final(self)@.col == old(self)@.col + (end - i)
                            &&& tok@ == (TokenV {
                                t_type: t,
                                line: final(self)@.line,
                                char: final(self)@.col,
                            })
                        },
                        Err(_) => false,
                    },
                    Err(e) => r == Err::<Token, LexError>(e),
                }
            }),
    {
        let ghost s = self@.input;
        let ghost i = self@.pos;
        let ghost line0 = self@.line;
        let ghost col0 = self@.col;
        let start = self.pos;
        let start_line = self.line;
        let start_col = self.col;
        proof {
            lemma_scan_while(s, i, |ch: char| is_digit_char(ch));
        }
        while self.at_digit_char()
            invariant
                self.inv(),
                self@.input == s,
                start as int == i,
                i <= self@.pos <= s.len(),
                self@.line == line0,
                self@.col == col0 + (self@.pos - i),
                scan_while(s, i, |ch: char| is_digit_char(ch)) == scan_while(
                    s,
                    self@.pos,
                    |ch: char| is_digit_char(ch),
                ),
            decreases s.len() - self@.pos,
        {
            self.skip_char();
        }
        proof {
            lemma_scan_while(s, self@.pos, |ch: char| is_digit_char(ch));
            assert(scan_while(s, i, |ch: char| is_digit_char(ch)) == self@.pos);
        }
        let ghost j = self@.pos;
        let digits_end = self.pos;
        let has_dot = self.pos < self.input.unicode_len() && self.input.get_char(self.pos) == '.';
        if has_dot {
            self.skip_char();
            proof {
                lemma_scan_while(s, j + 1, |ch: char| is_digit_char(ch));
            }
            while self.at_digit_char()
                invariant
                    self.inv(),
                    self@.input == s,
                    has_dot,
                    0 <= i < j + 1 <= self@.pos <= s.len(),
                    self@.line == line0,
                    self@.col == col0 + (self@.pos - i),
                    scan_while(s, j + 1, |ch: char| is_digit_char(ch)) == scan_while(
                        s,
                        self@.pos,
                        |ch: char| is_digit_char(ch),
                    ),
                decreases s.len() - self@.pos,
            {
                self.skip_char();
            }
            proof {
                lemma_scan_while(s, self@.pos, |ch: char| is_digit_char(ch));
                assert(scan_while(s, j + 1, |ch: char| is_digit_char(ch)) == self@.pos);
            }
            let lexeme = self.input.substring_char(start, self.pos);
            proof {
                let k = self@.pos;
                let w = s.subrange(i, k);
                lemma_scan_while(s, i, |ch: char| is_digit_char(ch));
                lemma_scan_while(s, j + 1, |ch: char| is_digit_char(ch));
                assert(w[j - i] == '.');
                assert(i < j);
                assert forall|q: int| 0 <= q < w.len() && q != j - i implies is_digit_char(
                    #[trigger] w[q],
                ) by {
                    if q < j - i {
                        assert(w[q] == s[i + q]);
                    } else {
                        assert(w[q] == s[i + q] && j + 1 <= i + q < k);
                    }
                }
                assert(is_float_literal(w));
            }
            let bits: FloatBits = float_from_literal(lexeme);
            Ok(Token::new(TokenType::FloatLiteral(bits), self.line, self.col))
        } else {
            // integer literal: fold the digits, stopping at overflow
            let mut val: u64 = 0;
            let mut idx = start;
            proof {
                assert(s.subrange(i, i as int) =~= Seq::<char>::empty());
                lemma_scan_while(s, i, |ch: char| is_digit_char(ch));
            }
            while idx < digits_end
                invariant
                    self.inv(),
                    s == old(self)@.input,
                    self@.input == s,
                    self@.pos == j,
                    self@.line == line0,
                    self@.col == col0 + (j - i),
                    i == old(self)@.pos,
                    line0 == old(self)@.line,
                    col0 == old(self)@.col,
                    start_line as int == line0,
                    start_col as int == col0,
                    i <= idx <= j <= s.len(),
                    start as int == i,
                    digits_end as int == j,
                    j == scan_while(s, i, |ch: char| is_digit_char(ch)),
                    !(j < s.len() && s[j] == '.'),
                    is_digit_char(s[i]),
                    !is_letter_char(s[i]),
                    val == dec_val(s.subrange(i, idx as int)),
                    val <= 0x7fff_ffff,
                    forall|q: int| i <= q < j ==> is_digit_char(#[trigger] s[q]),
                decreases j - idx,
            {
                let c = self.input.get_char(idx);
                assert(is_digit_char(c));
                let d: u64 = (c as u32 as u64) - 48;
                let next = val * 10 + d;
                proof {
                    let p = s.subrange(i, idx as int);
                    let q = s.subrange(i, idx + 1);
                    assert(q.drop_last() =~= p);
                    assert(q.last() == s[idx as int]);
                    assert(dec_val(q) == dec_val(p) * 10 + digit_val(s[idx as int]));
                }
                if next > 2147483647 {
                    proof {
                        lemma_dec_val_prefix(s, i, idx + 1, j);
                    }
                    return Err(
                        LexError::IntegerOverflow { line: start_line, char: start_col },
                    );
                }
                val = next;
                idx = idx + 1;
            }
            proof {
                assert(s.subrange(i, idx as int) =~= s.subrange(i, j));
            }
            Ok(Token::new(TokenType::IntegerLiteral(val as i32), self.line, self.col))
        }
    }

    /// Consumes `:=`; a `:` followed by anything else is an error.
    fn next_assignment(&mut self) -> (r: Result<Token, LexError>)
        requires
            old(self).inv(),
            old(self)@.pos < old(self)@.input.len(),
            old(self)@.input[old(self)@.pos] == ':',
        ensures
            final(self).inv(),
            final(self)@.input == old(self)@.input,
            ({
                let s = old(self)@.input;
                let i = old(self)@.pos;
                match spec_token_at(s, i, old(self)@.line, old(self)@.col) {
                    Ok((t, end)) => match r {
                        Ok(tok) => {
                            &&& final(self)@.pos == end
                            &&& final(self)@.line == old(self)@.line
                            &&& final(self)@.col == old(self)@.col + (end - i)
                            &&& tok@ == (TokenV {
                                t_type: t,
                                line: final(self)@.line,
                                char: final(self)@.col,
                            })
                        },
                        Err(_) => false,
                    },
                    Err(e) => r == Err::<Token, LexError>(e),
                }
            }),
    {
        self.skip_char();
        if self.pos >= self.input.unicode_len() {
            return Err(LexError::ExpectedEquals { found: None, line: self.line, char: self.col });
        }
        let c = self.input.get_char(self.pos);
        if c == '=' {
            self.skip_char();
            Ok(Token::new(TokenType::Assignment, self.line, self.col))
        } else {
            Err(LexError::ExpectedEquals { found: Some(c), line: self.line, char: self.col })
        }
    }

    /// Consumes the token starting at the cursor, which must not sit on
    /// whitespace.
    fn next(&mut self) -> (r: Result<Token, LexError>)
        requires
            old(self).inv(),
            old(self)@.pos < old(self)@.input.len(),
            !is_whitespace_char(old(self)@.input[old(self)@.pos]),
        ensures
            final(self).inv(),
            final(self)@.input == old(self)@.input,
            ({
                let s = old(self)@.input;
                let i = old(self)@.pos;
                match spec_token_at(s, i, old(self)@.line, old(self)@.col) {
                    Ok((t, end)) => match r {
                        Ok(tok) => {
                            &&& final(self)@.pos == end
                            &&& final(self)@.line == old(self)@.line
                            &&& final(self)@.col == old(self)@.col + (end - i)
                            &&& tok@ == (TokenV {
                                t_type: t,
                                line: final(self)@.line,
                                char: final(self)@.col,
                            })
                        },
                        Err(_) => false,
                    },
                    Err(e) => r == Err::<Token, LexError>(e),
                }
            }),
    {
        let c = self.input.get_char(self.pos);
        match c {
            ',' => self.skip_and_construct(TokenType::Comma),
            ';' => self.skip_and_construct(TokenType::Semicolon),
            '{' => self.skip_and_construct(TokenType::LCurlyBracket),
            '}' => self.skip_and_construct(TokenType::RCurlyBracket),
            '(' => self.skip_and_construct(TokenType::LRoundBracket),
            ')' => self.skip_and_construct(TokenType::RRoundBracket),
            '>' => self.skip_and_construct(TokenType::Operator(Operator::Gt, 0, false)),
            '<' => self.skip_and_construct(TokenType::Operator(Operator::Lt, 0, false)),
            '=' => self.skip_and_construct(TokenType::Operator(Operator::Eq, 0, false)),
            '+' => self.skip_and_construct(TokenType::Operator(Operator::Add, 1, true)),
            '-' => self.skip_and_construct(TokenType::Operator(Operator::Sub, 1, true)),
            '&' => self.skip_and_construct(TokenType::Operator(Operator::And, 1, true)),
            '|' => self.skip_and_construct(TokenType::Operator(Operator::Or, 1, true)),
            '*' => self.skip_and_construct(TokenType::Operator(Operator::Mul, 2, true)),
            '/' => self.skip_and_construct(TokenType::Operator(Operator::Div, 2, true)),
            '^' => self.skip_and_construct(TokenType::Operator(Operator::Pow, 3, true)),
            ':' => self.next_assignment(),
            _ => {
                if c >= '0' && c <= '9' {
                    self.next_number()
                } else if (c >= 'a' && c <= 'z') || (c >= 'A' && c <= 'Z') {
                    Ok(self.next_id())
                } else {
                    Err(LexError::UnexpectedChar { c, line: self.line, char: self.col })
                }
            },
        }
    }

    /// Consumes a single-character token and tags it.
    fn skip_and_construct(&mut self, t_type: TokenType) -> (r: Result<Token, LexError>)
        requires
            old(self).inv(),
            old(self)@.pos < old(self)@.input.len(),
            old(self)@.input[old(self)@.pos] != '\n',
        ensures
            final(self).inv(),
            final(self)@.input == old(self)@.input,
            final(self)@.pos == old(self)@.pos + 1,
            final(self)@.line == old(self)@.line,
            final(self)@.col == old(self)@.col + 1,
            match r {
                Ok(tok) => tok@ == (TokenV {
                    t_type: t_type@,
                    line: old(self)@.line,
                    char: old(self)@.col + 1,
                }),
                Err(_) => false,
            },
    {
        self.skip_char();
        Ok(Token::new(t_type, self.line, self.col))
    }

    /// Tokenizes the rest of the input: the tokens of the model lexer, in
    /// order and with its positions, or its first lexical failure.
    pub fn lex(&mut self) -> (r: Result<Vec<Token>, LexError>)
        requires
            old(self).inv(),
        ensures
            match spec_lex_from(
                old(self)@.input,
                old(self)@.pos,
                old(self)@.line,
                old(self)@.col,
            ) {
                Ok(sp) => match r {
                    Ok(toks) => toks@.len() == sp.len() && (forall|k: int|
                        0 <= k < sp.len() ==> toks@[k]@ == spanned_token(#[trigger] sp[k])),
                    Err(_) => false,
                },
                Err(e) => r == Err::<Vec<Token>, LexError>(e),
            },
    {
        let ghost s = self@.input;
        let ghost p0 = self@.pos;
        let ghost l0 = self@.line;
        let ghost c0 = self@.col;
        let mut out: Vec<Token> = Vec::new();
        let ghost mut done: Seq<SpannedV> = Seq::empty();
        loop
            invariant
                self.inv(),
                s == old(self)@.input,
                p0 == old(self)@.pos,
                l0 == old(self)@.line,
                c0 == old(self)@.col,
                self@.input == s,
                out@.len() == done.len(),
                forall|k: int| 0 <= k < done.len() ==> out@[k]@ == spanned_token(#[trigger] done[k]),
                match spec_lex_from(s, self@.pos, self@.line, self@.col) {
                    Ok(rest) => spec_lex_from(s, p0, l0, c0) == Ok::<Seq<SpannedV>, LexError>(
                        done + rest,
                    ),
                    Err(e) => spec_lex_from(s, p0, l0, c0) == Err::<Seq<SpannedV>, LexError>(e),
                },
            decreases s.len() - self@.pos,
        {
            if self.pos >= self.input.unicode_len() {
                proof {
                    assert(done + Seq::<SpannedV>::empty() =~= done);
                }
                return Ok(out);
            }
            let ghost pos_before = self@.pos;
            let ghost line_before = self@.line;
            let ghost col_before = self@.col;
            let c = self.input.get_char(self.pos);
            if c == ' ' || c == '\t' || c == '\n' {
                self.skip_char();
                proof {
                    assert(spec_lex_from(s, pos_before, line_before, col_before)
                        == spec_lex_from(s, self@.pos, self@.line, self@.col));
                }
            } else {
                proof {
                    lemma_token_at_bounds(s, pos_before, line_before, col_before);
                }
                match self.next() {
                    Err(e) => {
                        proof {
                            assert(spec_lex_from(s, pos_before, line_before, col_before)
                                == Err::<Seq<SpannedV>, LexError>(e));
                        }
                        return Err(e);
                    },
                    Ok(tok) => {
                        let ghost te = spec_token_at(s, pos_before, line_before, col_before)->Ok_0;
                        let ghost t = te.0;
                        let ghost end = te.1;
                        let ghost sp = SpannedV {
                            token: t,
                            start: pos_before,
                            end: end,
                            line: line_before,
                            char: col_before + (end - pos_before),
                        };
                        out.push(tok);
                        proof {
                            let done_old = done;
                            done = done.push(sp);
                            assert(done_old.push(sp) =~= done_old + seq![sp]);
                            match spec_lex_from(s, self@.pos, self@.line, self@.col) {
                                Ok(rest2) => {
                                    assert(spec_lex_from(s, pos_before, line_before, col_before)
                                        == Ok::<Seq<SpannedV>, LexError>(seq![sp] + rest2));
                                    assert(done_old + (seq![sp] + rest2) =~= done + rest2);
                                },
                                Err(e2) => {
                                    assert(spec_lex_from(s, pos_before, line_before, col_before)
                                        == Err::<Seq<SpannedV>, LexError>(e2));
                                },
                            }
                        }
                    },
                }
            }
        }
    }
}

} // verus!
