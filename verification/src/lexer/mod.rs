//! The character-level scanner: turns source text into a stream of tokens,
//! one token per call. Its behaviour is pinned down by the specification
//! function [`next_token_v`].

pub mod token;

use crate::text::push_char;
use token::Token;
use token::TokenV;
use vstd::prelude::*;

verus! {

/// The character of `s` at position `p`, with a NUL sentinel past the end.
pub open spec fn char_at(s: Seq<char>, p: int) -> char {
    if 0 <= p < s.len() {
        s[p]
    } else {
        '\u{0000}'
    }
}

/// Whether `c` may appear in an identifier.
pub open spec fn is_letter_v(c: char) -> bool {
    ('a' <= c && c <= 'z') || ('A' <= c && c <= 'Z') || c == '_'
}

/// Whether `c` is a decimal digit.
pub open spec fn is_digit_v(c: char) -> bool {
    '0' <= c && c <= '9'
}

/// Whether `c` is blank space between tokens.
pub open spec fn is_ws_v(c: char) -> bool {
    c == ' ' || c == '\t' || c == '\n' || c == '\r'
}

/// The first position at or after `pos` holding a non-blank character.
pub open spec fn skip_ws_v(s: Seq<char>, pos: int) -> int
    decreases s.len() - pos,
{
    if pos < s.len() && is_ws_v(s[pos]) {
        skip_ws_v(s, pos + 1)
    } else {
        pos
    }
}

/// The end of the identifier starting at `pos`.
pub open spec fn scan_letters_v(s: Seq<char>, pos: int) -> int
    decreases s.len() - pos,
{
    if pos < s.len() && is_letter_v(s[pos]) {
        scan_letters_v(s, pos + 1)
    } else {
        pos
    }
}

/// The end of the digit run starting at `pos`.
pub open spec fn scan_digits_v(s: Seq<char>, pos: int) -> int
    decreases s.len() - pos,
{
    if pos < s.len() && is_digit_v(s[pos]) {
        scan_digits_v(s, pos + 1)
    } else {
        pos
    }
}

/// The position of the closing quote (or NUL) of a string literal whose
/// contents start at `pos`, or the end of the input if none follows.
pub open spec fn scan_str_v(s: Seq<char>, pos: int) -> int
    decreases s.len() - pos,
{
    if pos < s.len() && s[pos] != '"' && s[pos] != '\u{0000}' {
        scan_str_v(s, pos + 1)
    } else {
        pos
    }
}

/// The numeric value of a sequence of decimal digits.
pub open spec fn digit_val(c: char) -> nat {
    if c == '0' {
        0
    } else if c == '1' {
        1
    } else if c == '2' {
        2
    } else if c == '3' {
        3
    } else if c == '4' {
        4
    } else if c == '5' {
        5
    } else if c == '6' {
        6
    } else if c == '7' {
        7
    } else if c == '8' {
        8
    } else {
        9
    }
}

/// The value of a digit string read as a decimal number.
pub open spec fn dec_val(s: Seq<char>) -> nat
    decreases s.len(),
{
    if s.len() == 0 {
        0
    } else {
        dec_val(s.drop_last()) * 10 + digit_val(s.last())
    }
}

/// The token for a scanned word: a keyword where the word matches one, an
/// identifier otherwise.
pub open spec fn keyword_or_ident_v(w: Seq<char>) -> TokenV {
    if w == "fn"@ {
        TokenV::Function
    } else if w == "let"@ {
        TokenV::Let
    } else if w == "if"@ {
        TokenV::If
    } else if w == "else"@ {
        TokenV::Else
    } else if w == "return"@ {
        TokenV::Return
    } else if w == "true"@ {
        TokenV::True
    } else if w == "false"@ {
        TokenV::False
    } else {
        TokenV::Ident(w)
    }
}

/// The token for a scanned digit run: its decimal value where that fits a
/// 64-bit signed integer, the illegal token otherwise.
pub open spec fn number_token_v(w: Seq<char>) -> TokenV {
    if dec_val(w) <= i64::MAX {
        TokenV::Int(dec_val(w) as i64)
    } else {
        TokenV::Illegal
    }
}

/// The next token of `s` at or after `pos`, together with the position where
/// scanning resumes. Blank space is skipped first; at the end of the input
/// the end-of-input token is returned with the position unchanged, so the
/// end-of-input token is a fixed point of repeated scanning.
pub open spec fn next_token_v(s: Seq<char>, pos: int) -> (TokenV, int) {
    let p = skip_ws_v(s, pos);
    if p >= s.len() {
        (TokenV::EOF, p)
    } else {
        let c = s[p];
        if c == '=' {
            if char_at(s, p + 1) == '=' {
                (TokenV::Equal, p + 2)
            } else {
                (TokenV::Assign, p + 1)
            }
        } else if c == ';' {
            (TokenV::Semicolon, p + 1)
        } else if c == '(' {
            (TokenV::LParen, p + 1)
        } else if c == ')' {
            (TokenV::RParen, p + 1)
        } else if c == ',' {
            (TokenV::Comma, p + 1)
        } else if c == '+' {
            (TokenV::Plus, p + 1)
        } else if c == '-' {
            (TokenV::Minus, p + 1)
        } else if c == '!' {
            if char_at(s, p + 1) == '=' {
                (TokenV::NotEqual, p + 2)
            } else {
                (TokenV::Bang, p + 1)
            }
        } else if c == '/' {
            (TokenV::Slash, p + 1)
        } else if c == '*' {
            (TokenV::Asterick, p + 1)
        } else if c == '<' {
            (TokenV::LT, p + 1)
        } else if c == '>' {
            (TokenV::GT, p + 1)
        } else if c == '{' {
            (TokenV::LBrace, p + 1)
        } else if c == '}' {
            (TokenV::RBrace, p + 1)
        } else if c == '[' {
            (TokenV::LBracket, p + 1)
        } else if c == ']' {
            (TokenV::RBracket, p + 1)
        } else if c == ':' {
            (TokenV::Colon, p + 1)
        } else if c == '"' {
            let e = scan_str_v(s, p + 1);
            (TokenV::Str(s.subrange(p + 1, e)), if e < s.len() {
                e + 1
            } else {
                e
            })
        } else if c == '\u{0000}' {
            (TokenV::EOF, p + 1)
        } else if is_letter_v(c) {
            let e = scan_letters_v(s, p);
            (keyword_or_ident_v(s.subrange(p, e)), e)
        } else if is_digit_v(c) {
            let e = scan_digits_v(s, p);
            (number_token_v(s.subrange(p, e)), e)
        } else {
            (TokenV::Illegal, p + 1)
        }
    }
}

pub proof fn lemma_skip_ws_bounds(s: Seq<char>, pos: int)
    requires
        0 <= pos <= s.len(),
    ensures
        pos <= skip_ws_v(s, pos) <= s.len(),
    decreases s.len() - pos,
{
    if pos < s.len() && is_ws_v(s[pos]) {
        lemma_skip_ws_bounds(s, pos + 1);
    }
}

pub proof fn lemma_scan_letters_bounds(s: Seq<char>, pos: int)
    requires
        0 <= pos <= s.len(),
    ensures
        pos <= scan_letters_v(s, pos) <= s.len(),
    decreases s.len() - pos,
{
    if pos < s.len() && is_letter_v(s[pos]) {
        lemma_scan_letters_bounds(s, pos + 1);
    }
}

pub proof fn lemma_scan_digits_bounds(s: Seq<char>, pos: int)
    requires
        0 <= pos <= s.len(),
    ensures
        pos <= scan_digits_v(s, pos) <= s.len(),
    decreases s.len() - pos,
{
    if pos < s.len() && is_digit_v(s[pos]) {
        lemma_scan_digits_bounds(s, pos + 1);
    }
}

pub proof fn lemma_scan_str_bounds(s: Seq<char>, pos: int)
    requires
        0 <= pos <= s.len(),
    ensures
        pos <= scan_str_v(s, pos) <= s.len(),
    decreases s.len() - pos,
{
    if pos < s.len() && s[pos] != '"' && s[pos] != '\u{0000}' {
        lemma_scan_str_bounds(s, pos + 1);
    }
}

/// Scanning never moves backwards, stays within one position past the input,
/// and stands still only at the end of the input, where it yields the
/// end-of-input token.
pub proof fn lemma_next_token_progress(s: Seq<char>, pos: int)
    requires
        0 <= pos <= s.len(),
    ensures
        pos <= next_token_v(s, pos).1 <= s.len(),
        next_token_v(s, pos).0 != TokenV::EOF ==> next_token_v(s, pos).1 > pos,
{
    lemma_skip_ws_bounds(s, pos);
    let p = skip_ws_v(s, pos);
    if p < s.len() {
        let c = s[p];
        if c == '"' {
            lemma_scan_str_bounds(s, p + 1);
        } else if c == '=' || c == ';' || c == '(' || c == ')' || c == ',' || c == '+' || c == '-'
            || c == '!' || c == '/' || c == '*' || c == '<' || c == '>' || c == '{' || c == '}'
            || c == '[' || c == ']' || c == ':' || c == '\u{0000}' {
        } else if is_letter_v(c) {
            lemma_scan_letters_bounds(s, p);
            assert(scan_letters_v(s, p) == scan_letters_v(s, p + 1));
            lemma_scan_letters_bounds(s, p + 1);
        } else if is_digit_v(c) {
            lemma_scan_digits_bounds(s, p);
            assert(scan_digits_v(s, p) == scan_digits_v(s, p + 1));
            lemma_scan_digits_bounds(s, p + 1);
        }
    }
}

/// A well-formed scanner's position stays within its input.
pub proof fn lemma_lexer_wf_bounds(l: Lexer)
    requires
        l.wf(),
    ensures
        0 <= l.pos_v() <= l.input_v().len(),
{
}

/// The tokens the scanner yields from position `pos` to the end of the
/// input, end-of-input marker excluded.
pub open spec fn lex_tokens_v(input: Seq<char>, pos: int) -> Seq<TokenV>
    decreases input.len() - pos,
    via lex_tokens_v_dec
{
    if pos < 0 || pos > input.len() {
        Seq::empty()
    } else {
        let (t, p2) = next_token_v(input, pos);
        if t is EOF {
            Seq::empty()
        } else {
            seq![t] + lex_tokens_v(input, p2)
        }
    }
}

#[via_fn]
proof fn lex_tokens_v_dec(input: Seq<char>, pos: int) {
    if 0 <= pos <= input.len() {
        lemma_next_token_progress(input, pos);
    }
}

/// The scanner: a cursor over the characters of the input. `position` is the
/// index of the current character `ch`; `read_position` the index of the
/// next one to read.
pub struct Lexer {
    input: Vec<char>,
    position: usize,
    read_position: usize,
    ch: char,
}

impl Lexer {
    /// The characters being scanned.
    pub closed spec fn input_v(&self) -> Seq<char> {
        self.input@
    }

    /// The current scan position.
    pub closed spec fn pos_v(&self) -> int {
        self.position as int
    }

    /// The cursor's internal consistency: the current character mirrors the
    /// input at the current position, and the read-ahead index sits one past
    /// it until the end of the input is reached.
    pub closed spec fn wf(&self) -> bool {
        &&& self.position <= self.input@.len()
        &&& self.read_position == if self.position < self.input@.len() {
            self.position + 1
        } else {
            self.position as int
        }
        &&& self.ch == char_at(self.input@, self.position as int)
    }

    pub fn new(input: &str) -> (l: Lexer)
        ensures
            l.wf(),
            l.input_v() == input@,
            l.pos_v() == 0,
    {
        let n = input.unicode_len();
        let mut chars: Vec<char> = Vec::new();
        let mut i: usize = 0;
        while i < n
            invariant
                i <= n,
                n == input@.len(),
                chars@ == input@.take(i as int),
            decreases n - i,
        {
            let c = input.get_char(i);
            chars.push(c);
            i = i + 1;
            proof {
                assert(chars@ =~= input@.take(i as int));
            }
        }
        proof {
            assert(chars@ =~= input@);
        }
        let mut l = Lexer { input: chars, position: 0, read_position: 0, ch: '\u{0000}' };
        l.read_char();
        l
    }

    fn read_char(&mut self)
        requires
            old(self).read_position <= old(self).input@.len(),
        ensures
            final(self).input@ == old(self).input@,
            final(self).position == old(self).read_position,
            final(self).wf(),
    {
        self.position = self.read_position;
        if self.read_position < self.input.len() {
            self.ch = self.input[self.read_position];
            self.read_position = self.read_position + 1;
        } else {
            self.ch = '\u{0000}';
        }
    }

    fn is_letter(ch: char) -> (r: bool)
        ensures
            r == is_letter_v(ch),
    {
        ('a' <= ch && ch <= 'z') || ('A' <= ch && ch <= 'Z') || ch == '_'
    }

    fn is_digit(ch: char) -> (r: bool)
        ensures
            r == is_digit_v(ch),
    {
        '0' <= ch && ch <= '9'
    }

    /// Copies the characters of the input between `from` and `to` into a
    /// fresh string.
    fn substring(&self, from: usize, to: usize) -> (s: String)
        requires
            from <= to <= self.input@.len(),
        ensures
            s@ == self.input@.subrange(from as int, to as int),
    {
        let mut s = String::new();
        let mut i: usize = from;
        while i < to
            invariant
                from <= i <= to <= self.input@.len(),
                s@ == self.input@.subrange(from as int, i as int),
            decreases to - i,
        {
            let c = self.input[i];
            push_char(&mut s, c);
            i = i + 1;
            proof {
                assert(self.input@.subrange(from as int, i as int) =~= self.input@.subrange(
                    from as int,
                    i - 1,
                ).push(self.input@[i - 1]));
            }
        }
        s
    }

    fn read_identifier(&mut self) -> (s: String)
        requires
            old(self).wf(),
        ensures
            final(self).wf(),
            final(self).input@ == old(self).input@,
            final(self).pos_v() == scan_letters_v(old(self).input@, old(self).pos_v()),
            s@ == old(self).input@.subrange(old(self).pos_v(), final(self).pos_v()),
    {
        let pos = self.position;
        while Lexer::is_letter(self.ch)
            invariant
                self.wf(),
                self.input@ == old(self).input@,
                pos <= self.position,
                scan_letters_v(self.input@, pos as int) == scan_letters_v(
                    self.input@,
                    self.position as int,
                ),
            decreases self.input@.len() - self.position,
        {
            self.read_char();
        }
        proof {
            lemma_scan_letters_bounds(self.input@, self.position as int);
        }
        self.substring(pos, self.position)
    }

    fn lookup_ident(ident: String) -> (t: Token)
        ensures
            t.deep_view() == keyword_or_ident_v(ident@),
    {
        if ident == String::from_str("fn") {
            Token::Function
        } else if ident == String::from_str("let") {
            Token::Let
        } else if ident == String::from_str("if") {
            Token::If
        } else if ident == String::from_str("else") {
            Token::Else
        } else if ident == String::from_str("return") {
            Token::Return
        } else if ident == String::from_str("true") {
            Token::True
        } else if ident == String::from_str("false") {
            Token::False
        } else {
            Token::Ident(ident)
        }
    }

    fn skip_whitespace(&mut self)
        requires
            old(self).wf(),
        ensures
            final(self).wf(),
            final(self).input@ == old(self).input@,
            final(self).pos_v() == skip_ws_v(old(self).input@, old(self).pos_v()),
    {
        while self.ch == ' ' || self.ch == '\t' || self.ch == '\n' || self.ch == '\r'
            invariant
                self.wf(),
                self.input@ == old(self).input@,
                skip_ws_v(self.input@, old(self).pos_v()) == skip_ws_v(
                    self.input@,
                    self.position as int,
                ),
            decreases self.input@.len() - self.position,
        {
            self.read_char();
        }
    }

    fn digit_value(ch: char) -> (d: u64)
        requires
            is_digit_v(ch),
        ensures
            d == digit_val(ch),
            d < 10,
    {
        if ch == '0' {
            0
        } else if ch == '1' {
            1
        } else if ch == '2' {
            2
        } else if ch == '3' {
            3
        } else if ch == '4' {
            4
        } else if ch == '5' {
            5
        } else if ch == '6' {
            6
        } else if ch == '7' {
            7
        } else if ch == '8' {
            8
        } else {
            9
        }
    }

    fn read_numer(&mut self) -> (t: Token)
        requires
            old(self).wf(),
            is_digit_v(char_at(old(self).input@, old(self).pos_v())),
        ensures
            final(self).wf(),
            final(self).input@ == old(self).input@,
            final(self).pos_v() == scan_digits_v(old(self).input@, old(self).pos_v()),
            t.deep_view() == number_token_v(
                old(self).input@.subrange(old(self).pos_v(), final(self).pos_v()),
            ),
    {
        let ghost s = self.input@;
        let ghost pos0 = self.pos_v();
        let mut acc: Option<u64> = Some(0);
        while Lexer::is_digit(self.ch)
            invariant
                self.wf(),
                self.input@ == s,
                0 <= pos0 <= self.position,
                self.position <= s.len(),
                scan_digits_v(s, pos0) == scan_digits_v(s, self.position as int),
                match acc {
                    Some(v) => v == dec_val(s.subrange(pos0, self.position as int)),
                    None => dec_val(s.subrange(pos0, self.position as int)) > u64::MAX,
                },
            decreases s.len() - self.position,
        {
            let d = Lexer::digit_value(self.ch);
            let ghost w = s.subrange(pos0, self.position as int);
            let ghost w2 = s.subrange(pos0, self.position as int + 1);
            proof {
                assert(self.position < s.len());
                assert(w2 =~= w.push(s[self.position as int]));
                assert(w2.drop_last() =~= w);
                assert(dec_val(w2) == dec_val(w) * 10 + digit_val(s[self.position as int]));
            }
            acc = match acc {
                Some(v) => {
                    match v.checked_mul(10) {
                        Some(v10) => v10.checked_add(d),
                        None => None,
                    }
                },
                None => None,
            };
            proof {
                if acc is None {
                    // Once the accumulated value exceeds the range it can
                    // only grow with further digits.
                    assert(dec_val(w2) >= dec_val(w) * 10);
                    if dec_val(w) > u64::MAX {
                        assert(dec_val(w) * 10 > u64::MAX) by (nonlinear_arith)
                            requires
                                dec_val(w) > u64::MAX,
                        ;
                    }
                }
            }
            self.read_char();
        }
        proof {
            lemma_scan_digits_bounds(s, self.position as int);
            assert(u64::MAX > i64::MAX as u64);
        }
        match acc {
            Some(v) => {
                if v <= i64::MAX as u64 {
                    Token::Int(v as i64)
                } else {
                    Token::Illegal
                }
            },
            None => Token::Illegal,
        }
    }

    fn peek(&self) -> (c: char)
        requires
            self.wf(),
        ensures
            c == char_at(self.input@, self.pos_v() + 1),
    {
        if self.read_position >= self.input.len() {
            '\u{0000}'
        } else {
            self.input[self.read_position]
        }
    }

    fn read_str(&mut self) -> (s: String)
        requires
            old(self).wf(),
            old(self).pos_v() < old(self).input@.len(),
        ensures
            final(self).wf(),
            final(self).input@ == old(self).input@,
            final(self).pos_v() == scan_str_v(old(self).input@, old(self).pos_v() + 1),
            s@ == old(self).input@.subrange(old(self).pos_v() + 1, final(self).pos_v()),
    {
        let ghost sq = self.input@;
        let position = self.position + 1;
        self.read_char();
        while !(self.ch == '"' || self.ch == '\u{0000}')
            invariant
                self.wf(),
                self.input@ == sq,
                position <= self.position <= sq.len(),
                scan_str_v(sq, position as int) == scan_str_v(sq, self.position as int),
            decreases sq.len() - self.position,
        {
            self.read_char();
        }
        self.substring(position, self.position)
    }

    /// Scans and returns the next token. The position advances past the
    /// token; at the end of the input the end-of-input token is returned and
    /// the position stands still.
    pub fn next_token(&mut self) -> (t: Token)
        requires
            old(self).wf(),
        ensures
            final(self).wf(),
            final(self).input_v() == old(self).input_v(),
            t.deep_view() == next_token_v(old(self).input_v(), old(self).pos_v()).0,
            final(self).pos_v() == next_token_v(old(self).input_v(), old(self).pos_v()).1,
    {
        self.skip_whitespace();
        let tok: Token = match self.ch {
            '=' => {
                if self.peek() == '=' {
                    self.read_char();
                    Token::Equal
                } else {
                    Token::Assign
                }
            },
            ';' => Token::Semicolon,
            '(' => Token::LParen,
            ')' => Token::RParen,
            ',' => Token::Comma,
            '+' => Token::Plus,
            '-' => Token::Minus,
            '!' => {
                if self.peek() == '=' {
                    self.read_char();
                    Token::NotEqual
                } else {
                    Token::Bang
                }
            },
            '/' => Token::Slash,
            '*' => Token::Asterick,
            '<' => Token::LT,
            '>' => Token::GT,
            '{' => Token::LBrace,
            '}' => Token::RBrace,
            '[' => Token::LBracket,
            ']' => Token::RBracket,
            ':' => Token::Colon,
            '"' => Token::Str(self.read_str()),
            '\u{0000}' => {
                if self.position >= self.input.len() {
                    return Token::EOF;
                }
                Token::EOF
            },
            _ => {
                if Lexer::is_letter(self.ch) {
                    return Lexer::lookup_ident(self.read_identifier());
                } else if Lexer::is_digit(self.ch) {
                    return self.read_numer();
                } else {
                    Token::Illegal
                }
            },
        };
        self.read_char();
        tok
    }
}

} // verus!
