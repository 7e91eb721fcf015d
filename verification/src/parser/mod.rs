//! The operator-precedence parser: builds an abstract syntax tree from the
//! token stream, with one token of lookahead past the current token.
//! Parsing continues past a syntax error by skipping to the next statement
//! boundary, so one pass surfaces every error.
//!
//! The specification parser (`sp_program`, `sp_expression`, ...) pins down
//! the exact tree and the exact error messages; every executable method is
//! proved to return what the specification parser describes, so parsing is
//! a function of the token stream alone.

pub mod ast;

use crate::lexer::Lexer;
use crate::lexer::lex_tokens_v;
use crate::lexer::token::Token;
use crate::lexer::token::TokenV;
use crate::lexer::token::kind_v;
use crate::lexer::token::token_text_v;
use ast::Args;
use ast::Block;
use ast::Literal;
use ast::Expr;
use ast::ExprV;
use ast::Ident;
use ast::Infix;
use ast::Params;
use ast::Prefix;
use ast::Program;
use ast::Stmt;
use ast::StmtV;
use ast::block_view;
use ast::expr_views;
use ast::lemma_block_view_index;
use ast::lemma_block_view_len;
use ast::lemma_expr_views_index;
use ast::lemma_expr_views_len;
use ast::lemma_pair_views_index;
use ast::lemma_pair_views_len;
use ast::pair_views;
use ast::param_views;
use vstd::prelude::*;

verus! {

broadcast use vstd::seq::group_seq_axioms, vstd::std_specs::vec::group_vec_axioms, ast::group_ast_views;

/// The binding power of each token, as a number: lowest, equality,
/// ordering, sum, product, prefix, call, index.
enum Precedence {
    Lowest,
    Equals,
    LessGreater,
    Sum,
    Product,
    Prefix,
    Call,
    Index,
}

/// The numeric level of a precedence.
spec fn level_v(p: Precedence) -> int {
    match p {
        Precedence::Lowest => 0,
        Precedence::Equals => 1,
        Precedence::LessGreater => 2,
        Precedence::Sum => 3,
        Precedence::Product => 4,
        Precedence::Prefix => 5,
        Precedence::Call => 6,
        Precedence::Index => 7,
    }
}

impl Precedence {
    /// The numeric level of this precedence.
    fn level(&self) -> (l: u8)
        ensures
            l as int == level_v(*self),
    {
        match self {
            Precedence::Lowest => 0,
            Precedence::Equals => 1,
            Precedence::LessGreater => 2,
            Precedence::Sum => 3,
            Precedence::Product => 4,
            Precedence::Prefix => 5,
            Precedence::Call => 6,
            Precedence::Index => 7,
        }
    }
}

/// The token at position `p` of the stream, with end-of-input past the end.
pub open spec fn tok_at(toks: Seq<TokenV>, p: int) -> TokenV {
    if 0 <= p < toks.len() {
        toks[p]
    } else {
        TokenV::EOF
    }
}

/// The binding power of a token: every token without an infix role binds
/// lowest.
pub open spec fn prec_v(t: TokenV) -> int {
    match t {
        TokenV::Equal => 1,
        TokenV::NotEqual => 1,
        TokenV::LT => 2,
        TokenV::GT => 2,
        TokenV::Plus => 3,
        TokenV::Minus => 3,
        TokenV::Slash => 4,
        TokenV::Asterick => 4,
        TokenV::LParen => 6,
        TokenV::LBracket => 7,
        _ => 0,
    }
}

/// The infix continuation a token starts, if any.
pub open spec fn infix_of(t: TokenV) -> Option<Infix> {
    match t {
        TokenV::Minus => Some(Infix::Minus),
        TokenV::Plus => Some(Infix::Plus),
        TokenV::Slash => Some(Infix::Divide),
        TokenV::Asterick => Some(Infix::Multiply),
        TokenV::Equal => Some(Infix::Equal),
        TokenV::NotEqual => Some(Infix::NotEqual),
        TokenV::LT => Some(Infix::LT),
        TokenV::GT => Some(Infix::GT),
        TokenV::LParen => Some(Infix::Call),
        TokenV::LBracket => Some(Infix::Index),
        _ => None,
    }
}

/// The position one token further, standing still at the end of the stream.
pub open spec fn advance(toks: Seq<TokenV>, p: int) -> int {
    if 0 <= p < toks.len() {
        p + 1
    } else {
        p
    }
}

/// A position brought back into the range a parse step may have reached;
/// the identity wherever the parser actually lands.
pub open spec fn clamp(lo: int, p: int, toks: Seq<TokenV>) -> int {
    if lo <= p <= toks.len() {
        p
    } else {
        lo
    }
}

/// The remaining length of the stream from position `p`: never negative,
/// and larger the further left `p` stands.
pub open spec fn remaining(toks: Seq<TokenV>, p: int) -> int {
    if p <= toks.len() {
        toks.len() - p
    } else {
        0
    }
}

/// The message of a failed expectation on the next token.
pub open spec fn expect_msg(expected: TokenV, got: TokenV) -> Seq<char> {
    "expected next token to be "@ + token_text_v(expected) + ", got "@ + token_text_v(got)
        + " instead"@
}

/// The message for a token that cannot begin an expression.
pub open spec fn no_prefix_msg(t: TokenV) -> Seq<char> {
    "No prefix defined for "@ + token_text_v(t)
}

/// Checking that the next token is of the expected kind: on success the
/// parser steps onto it, otherwise it stays put and reports the mismatch.
pub open spec fn sp_expect(toks: Seq<TokenV>, pos: int, expected: TokenV) -> (
    Result<(), Seq<char>>,
    int,
) {
    if kind_v(tok_at(toks, pos + 1)) == kind_v(expected) {
        (Ok(()), pos + 1)
    } else {
        (Err(expect_msg(expected, tok_at(toks, pos + 1))), pos)
    }
}

/// Whether the parser skips a trailing semicolon after an expression.
pub open spec fn skip_semicolon(toks: Seq<TokenV>, pos: int) -> int {
    if kind_v(tok_at(toks, pos + 1)) == kind_v(TokenV::Semicolon) {
        pos + 1
    } else {
        pos
    }
}

/// Parses a whole program from position `pos`: statements accumulate into
/// `stmts`; each syntax error is recorded in `errs` and parsing resumes at
/// the next token.
pub open spec fn sp_program(
    toks: Seq<TokenV>,
    pos: int,
    stmts: Seq<StmtV>,
    errs: Seq<Seq<char>>,
) -> (Seq<StmtV>, Seq<Seq<char>>, int)
    decreases remaining(toks, pos), 15int,
{
    if kind_v(tok_at(toks, pos)) == kind_v(TokenV::EOF) {
        (stmts, errs, pos)
    } else {
        let (r, p1) = sp_statement(toks, pos);
        let p2 = advance(toks, clamp(pos, p1, toks));
        match r {
            Ok(s) => sp_program(toks, p2, stmts.push(s), errs),
            Err(m) => sp_program(toks, p2, stmts, errs.push(m)),
        }
    }
}

/// Parses one statement, dispatching on the current token.
pub open spec fn sp_statement(toks: Seq<TokenV>, pos: int) -> (Result<StmtV, Seq<char>>, int)
    decreases remaining(toks, pos), 11int,
{
    match tok_at(toks, pos) {
        TokenV::Let => sp_let_statement(toks, pos),
        TokenV::Return => sp_return_statement(toks, pos),
        _ => sp_expression_statement(toks, pos),
    }
}

/// Parses a let statement: `let <identifier> = <expression> [;]`.
pub open spec fn sp_let_statement(toks: Seq<TokenV>, pos: int) -> (Result<StmtV, Seq<char>>, int)
    decreases remaining(toks, pos), 10int,
{
    let (r1, p1) = sp_expect(toks, pos, TokenV::Ident(Seq::empty()));
    match r1 {
        Err(m) => (Err(m), p1),
        Ok(()) => match tok_at(toks, p1) {
            TokenV::Ident(name) => {
                let (r2, p2) = sp_expect(toks, p1, TokenV::Assign);
                match r2 {
                    Err(m) => (Err(m), p2),
                    Ok(()) => {
                        let p3 = advance(toks, p2);
                        let (rv, p4) = sp_expression(toks, p3, 0);
                        match rv {
                            Err(m) => (Err(m), p4),
                            Ok(value) => {
                                let p5 = skip_semicolon(toks, clamp(p3, p4, toks));
                                (Ok(StmtV::LetStmt(name, value)), p5)
                            },
                        }
                    },
                }
            },
            _ => (Err("expected an ident but got something else!"@), p1),
        },
    }
}

/// Parses a return statement: `return <expression> [;]`.
pub open spec fn sp_return_statement(toks: Seq<TokenV>, pos: int) -> (
    Result<StmtV, Seq<char>>,
    int,
)
    decreases remaining(toks, pos), 10int,
{
    let p1 = advance(toks, pos);
    let (rv, p2) = sp_expression(toks, p1, 0);
    match rv {
        Err(m) => (Err(m), p2),
        Ok(value) => {
            let p3 = skip_semicolon(toks, clamp(p1, p2, toks));
            (Ok(StmtV::ReturnStmt(value)), p3)
        },
    }
}

/// Parses an expression statement: `<expression> [;]`.
pub open spec fn sp_expression_statement(toks: Seq<TokenV>, pos: int) -> (
    Result<StmtV, Seq<char>>,
    int,
)
    decreases remaining(toks, pos), 10int,
{
    let (r, p1) = sp_expression(toks, pos, 0);
    match r {
        Err(m) => (Err(m), p1),
        Ok(e) => {
            let p2 = skip_semicolon(toks, clamp(pos, p1, toks));
            (Ok(StmtV::ExprStmt(e)), p2)
        },
    }
}

/// Parses one expression by precedence climbing: the prefix part of the
/// current token, then infix continuations while the peeked token binds
/// tighter than `prec`.
pub open spec fn sp_expression(toks: Seq<TokenV>, pos: int, prec: int) -> (
    Result<ExprV, Seq<char>>,
    int,
)
    decreases remaining(toks, pos), 9int,
{
    let (r, p1) = sp_prefix_dispatch(toks, pos);
    match r {
        Err(m) => (Err(m), p1),
        Ok(left) => sp_infix_loop(toks, clamp(pos, p1, toks), left, prec),
    }
}

/// The infix continuation loop: while the peeked token is no semicolon and
/// binds tighter than `prec`, consume it and extend the expression.
pub open spec fn sp_infix_loop(toks: Seq<TokenV>, pos: int, left: ExprV, prec: int) -> (
    Result<ExprV, Seq<char>>,
    int,
)
    decreases remaining(toks, pos), 8int,
{
    let pk = tok_at(toks, pos + 1);
    if kind_v(pk) == kind_v(TokenV::Semicolon) || prec >= prec_v(pk) {
        (Ok(left), pos)
    } else {
        match infix_of(pk) {
            None => (Err(Seq::empty()), pos),
            Some(op) => {
                if 0 <= pos < toks.len() {
                    let p1 = pos + 1;
                    let (r2, p2) = sp_parse_infix(toks, p1, left, op);
                    match r2 {
                        Err(m) => (Err(m), p2),
                        Ok(newleft) => sp_infix_loop(toks, clamp(p1, p2, toks), newleft, prec),
                    }
                } else {
                    // Unreachable: a token that binds tighter than lowest
                    // exists at `pos + 1`, so `pos` is inside the stream.
                    (Ok(left), pos)
                }
            },
        }
    }
}

/// Parses one infix continuation standing on its operator token: a call, an
/// index, or a binary operation whose right operand binds at the operator's
/// precedence.
pub open spec fn sp_parse_infix(toks: Seq<TokenV>, pos: int, left: ExprV, op: Infix) -> (
    Result<ExprV, Seq<char>>,
    int,
)
    decreases remaining(toks, pos), 7int,
{
    if op == Infix::Call {
        sp_call_expr(toks, pos, left)
    } else if op == Infix::Index {
        sp_index_expr(toks, pos, left)
    } else {
        let precedence = prec_v(tok_at(toks, pos));
        if 0 <= pos < toks.len() {
            let (r, p1) = sp_expression(toks, pos + 1, precedence);
            match r {
                Err(m) => (Err(m), p1),
                Ok(right) => (
                    Ok(ExprV::Infix(Box::new(left), op, Box::new(right))),
                    p1,
                ),
            }
        } else {
            (Err(no_prefix_msg(TokenV::EOF)), pos)
        }
    }
}

/// Parses a call continuation: the argument list between parentheses.
pub open spec fn sp_call_expr(toks: Seq<TokenV>, pos: int, f: ExprV) -> (
    Result<ExprV, Seq<char>>,
    int,
)
    decreases remaining(toks, pos), 6int,
{
    let (r, p1) = sp_expression_list(toks, pos, TokenV::RParen);
    match r {
        Err(m) => (Err(m), p1),
        Ok(args) => (Ok(ExprV::Call(Box::new(f), args)), p1),
    }
}

/// Parses an index continuation: the index expression between brackets.
pub open spec fn sp_index_expr(toks: Seq<TokenV>, pos: int, left: ExprV) -> (
    Result<ExprV, Seq<char>>,
    int,
)
    decreases remaining(toks, pos), 6int,
{
    if 0 <= pos < toks.len() {
        let (r, p1) = sp_expression(toks, pos + 1, 0);
        match r {
            Err(m) => (Err(m), p1),
            Ok(idx) => {
                let (r2, p2) = sp_expect(toks, clamp(pos + 1, p1, toks), TokenV::RBracket);
                match r2 {
                    Err(m) => (Err(m), p2),
                    Ok(()) => (
                        Ok(ExprV::IndexExpr(Box::new(left), Box::new(idx))),
                        p2,
                    ),
                }
            },
        }
    } else {
        (Err(no_prefix_msg(TokenV::EOF)), pos)
    }
}

/// The prefix part of the current token: literals and identifiers stand for
/// themselves; operators, groupings, conditionals, function literals,
/// arrays and hashes each have a handler; any other token is a syntax
/// error.
pub open spec fn sp_prefix_dispatch(toks: Seq<TokenV>, pos: int) -> (
    Result<ExprV, Seq<char>>,
    int,
)
    decreases remaining(toks, pos), 5int,
{
    match tok_at(toks, pos) {
        TokenV::Ident(x) => (Ok(ExprV::IdentExpr(x)), pos),
        TokenV::Int(x) => (Ok(ExprV::LiteralExpr(ast::LiteralV::Int(x))), pos),
        TokenV::True => (Ok(ExprV::LiteralExpr(ast::LiteralV::Bool(true))), pos),
        TokenV::False => (Ok(ExprV::LiteralExpr(ast::LiteralV::Bool(false))), pos),
        TokenV::Str(x) => (Ok(ExprV::LiteralExpr(ast::LiteralV::Str(x))), pos),
        TokenV::Minus => sp_parse_prefix(toks, pos, Prefix::Minus),
        TokenV::Plus => sp_parse_prefix(toks, pos, Prefix::Plus),
        TokenV::Bang => sp_parse_prefix(toks, pos, Prefix::Not),
        TokenV::LParen => sp_grouped(toks, pos),
        TokenV::If => sp_if(toks, pos),
        TokenV::Function => sp_function(toks, pos),
        TokenV::LBracket => sp_array(toks, pos),
        TokenV::LBrace => sp_hash(toks, pos, Seq::empty()),
        t => (Err(no_prefix_msg(t)), pos),
    }
}

/// Parses a prefix operation: the operand binds at prefix precedence.
pub open spec fn sp_parse_prefix(toks: Seq<TokenV>, pos: int, p: Prefix) -> (
    Result<ExprV, Seq<char>>,
    int,
)
    decreases remaining(toks, pos), 4int,
{
    if 0 <= pos < toks.len() {
        let (r, p1) = sp_expression(toks, pos + 1, 5);
        match r {
            Err(m) => (Err(m), p1),
            Ok(operand) => (Ok(ExprV::Prefix(p, Box::new(operand))), p1),
        }
    } else {
        (Err(no_prefix_msg(TokenV::EOF)), pos)
    }
}

/// Parses a parenthesised group: the inner expression, then the closing
/// parenthesis.
pub open spec fn sp_grouped(toks: Seq<TokenV>, pos: int) -> (Result<ExprV, Seq<char>>, int)
    decreases remaining(toks, pos), 4int,
{
    if 0 <= pos < toks.len() {
        let (r, p1) = sp_expression(toks, pos + 1, 0);
        match r {
            Err(m) => (Err(m), p1),
            Ok(e) => {
                let (r2, p2) = sp_expect(toks, clamp(pos + 1, p1, toks), TokenV::RParen);
                match r2 {
                    Err(m) => (Err(m), p2),
                    Ok(()) => (Ok(e), p2),
                }
            },
        }
    } else {
        (Err(no_prefix_msg(TokenV::EOF)), pos)
    }
}

/// Parses a conditional: condition in parentheses, consequence block, and
/// an optional alternative block after `else`.
pub open spec fn sp_if(toks: Seq<TokenV>, pos: int) -> (Result<ExprV, Seq<char>>, int)
    decreases remaining(toks, pos), 4int,
{
    let (r1, p1) = sp_expect(toks, pos, TokenV::LParen);
    match r1 {
        Err(m) => (Err(m), p1),
        Ok(()) => {
            let p2 = advance(toks, p1);
            let (rc, p3) = sp_expression(toks, p2, 0);
            match rc {
                Err(m) => (Err(m), p3),
                Ok(cond) => {
                    let (r2, p4) = sp_expect(toks, clamp(p2, p3, toks), TokenV::RParen);
                    match r2 {
                        Err(m) => (Err(m), p4),
                        Ok(()) => {
                            let (r3, p5) = sp_expect(toks, p4, TokenV::LBrace);
                            match r3 {
                                Err(m) => (Err(m), p5),
                                Ok(()) => {
                                    let (rb, p6) = sp_block(toks, p5);
                                    match rb {
                                        Err(m) => (Err(m), p6),
                                        Ok(cons) => {
                                            let p6c = clamp(p5, p6, toks);
                                            if kind_v(tok_at(toks, p6c + 1)) == kind_v(
                                                TokenV::Else,
                                            ) {
                                                let p7 = p6c + 1;
                                                let (r4, p8) = sp_expect(
                                                    toks,
                                                    p7,
                                                    TokenV::LBrace,
                                                );
                                                match r4 {
                                                    Err(m) => (Err(m), p8),
                                                    Ok(()) => {
                                                        let (ra, p9) = sp_block(toks, p8);
                                                        match ra {
                                                            Err(m) => (Err(m), p9),
                                                            Ok(alt) => (
                                                                Ok(
                                                                    ExprV::If(
                                                                        Box::new(cond),
                                                                        cons,
                                                                        Some(alt),
                                                                    ),
                                                                ),
                                                                p9,
                                                            ),
                                                        }
                                                    },
                                                }
                                            } else {
                                                (
                                                    Ok(ExprV::If(Box::new(cond), cons, None)),
                                                    p6c,
                                                )
                                            }
                                        },
                                    }
                                },
                            }
                        },
                    }
                },
            }
        },
    }
}

/// Parses a block: statements between the opening brace the parser stands
/// on and the matching closing brace.
pub open spec fn sp_block(toks: Seq<TokenV>, pos: int) -> (Result<Seq<StmtV>, Seq<char>>, int)
    decreases remaining(toks, pos), 14int,
{
    let p1 = advance(toks, pos);
    sp_block_loop(toks, p1, Seq::empty())
}

/// The block statement loop: statements accumulate until the closing brace
/// or the end of the input.
pub open spec fn sp_block_loop(toks: Seq<TokenV>, pos: int, acc: Seq<StmtV>) -> (
    Result<Seq<StmtV>, Seq<char>>,
    int,
)
    decreases remaining(toks, pos), 13int,
{
    let t = tok_at(toks, pos);
    if kind_v(t) == kind_v(TokenV::RBrace) || kind_v(t) == kind_v(TokenV::EOF) {
        (Ok(acc), pos)
    } else {
        let (r, p1) = sp_statement(toks, pos);
        match r {
            Err(m) => (Err(m), p1),
            Ok(s) => {
                let p2 = advance(toks, clamp(pos, p1, toks));
                sp_block_loop(toks, p2, acc.push(s))
            },
        }
    }
}

/// Parses a function literal: parameters in parentheses, then the body
/// block.
pub open spec fn sp_function(toks: Seq<TokenV>, pos: int) -> (Result<ExprV, Seq<char>>, int)
    decreases remaining(toks, pos), 4int,
{
    let (r1, p1) = sp_expect(toks, pos, TokenV::LParen);
    match r1 {
        Err(m) => (Err(m), p1),
        Ok(()) => {
            let (rp, p2) = sp_params(toks, p1);
            match rp {
                Err(m) => (Err(m), p2),
                Ok(ps) => {
                    let (r2, p3) = sp_expect(toks, clamp(p1, p2, toks), TokenV::LBrace);
                    match r2 {
                        Err(m) => (Err(m), p3),
                        Ok(()) => {
                            let (rb, p4) = sp_block(toks, p3);
                            match rb {
                                Err(m) => (Err(m), p4),
                                Ok(body) => (Ok(ExprV::Fn(ps, body)), p4),
                            }
                        },
                    }
                },
            }
        },
    }
}

/// Parses a parameter list standing on the opening parenthesis: identifiers
/// separated by commas, ended by the closing parenthesis.
pub open spec fn sp_params(toks: Seq<TokenV>, pos: int) -> (
    Result<Seq<Seq<char>>, Seq<char>>,
    int,
)
    decreases remaining(toks, pos), 3int,
{
    if kind_v(tok_at(toks, pos + 1)) == kind_v(TokenV::RParen) {
        (Ok(Seq::empty()), pos + 1)
    } else {
        let p1 = advance(toks, pos);
        match tok_at(toks, p1) {
            TokenV::Ident(name) => sp_params_loop(toks, p1, seq![name]),
            _ => (Err("Token is not an identifier"@), p1),
        }
    }
}

/// The parameter loop: one more identifier after each comma, then the
/// closing parenthesis.
pub open spec fn sp_params_loop(toks: Seq<TokenV>, pos: int, acc: Seq<Seq<char>>) -> (
    Result<Seq<Seq<char>>, Seq<char>>,
    int,
)
    decreases remaining(toks, pos), 2int,
{
    if kind_v(tok_at(toks, pos + 1)) == kind_v(TokenV::Comma) {
        if 0 <= pos < toks.len() {
            let p1 = pos + 2;
            match tok_at(toks, p1) {
                TokenV::Ident(name) => sp_params_loop(toks, p1, acc.push(name)),
                _ => (Err("Token is not an identifier"@), p1),
            }
        } else {
            // Unreachable: a comma exists at `pos + 1`.
            (Ok(acc), pos)
        }
    } else {
        let (r, p1) = sp_expect(toks, pos, TokenV::RParen);
        match r {
            Err(m) => (Err(m), p1),
            Ok(()) => (Ok(acc), p1),
        }
    }
}

/// Parses an array literal standing on the opening bracket.
pub open spec fn sp_array(toks: Seq<TokenV>, pos: int) -> (Result<ExprV, Seq<char>>, int)
    decreases remaining(toks, pos), 4int,
{
    let (r, p1) = sp_expression_list(toks, pos, TokenV::RBracket);
    match r {
        Err(m) => (Err(m), p1),
        Ok(es) => (Ok(ExprV::Array(es)), p1),
    }
}

/// Parses a comma-separated expression list standing on its opening
/// delimiter, ended by a token of kind `end`.
pub open spec fn sp_expression_list(toks: Seq<TokenV>, pos: int, end: TokenV) -> (
    Result<Seq<ExprV>, Seq<char>>,
    int,
)
    decreases remaining(toks, pos), 3int,
{
    if kind_v(tok_at(toks, pos + 1)) == kind_v(end) {
        (Ok(Seq::empty()), pos + 1)
    } else if 0 <= pos < toks.len() {
        let p1 = pos + 1;
        let (r, p2) = sp_expression(toks, p1, 0);
        match r {
            Err(m) => (Err(m), p2),
            Ok(e) => sp_expression_list_loop(toks, clamp(p1, p2, toks), seq![e], end),
        }
    } else {
        (Err(no_prefix_msg(TokenV::EOF)), pos)
    }
}

/// The expression list loop: one more expression after each comma, then the
/// closing delimiter.
pub open spec fn sp_expression_list_loop(
    toks: Seq<TokenV>,
    pos: int,
    acc: Seq<ExprV>,
    end: TokenV,
) -> (Result<Seq<ExprV>, Seq<char>>, int)
    decreases remaining(toks, pos), 2int,
{
    if kind_v(tok_at(toks, pos + 1)) == kind_v(TokenV::Comma) {
        if 0 <= pos < toks.len() {
            let p1 = pos + 2;
            let (r, p2) = sp_expression(toks, p1, 0);
            match r {
                Err(m) => (Err(m), p2),
                Ok(e) => sp_expression_list_loop(
                    toks,
                    clamp(p1, p2, toks),
                    acc.push(e),
                    end,
                ),
            }
        } else {
            // Unreachable: a comma exists at `pos + 1`.
            (Ok(acc), pos)
        }
    } else {
        let (r, p1) = sp_expect(toks, pos, end);
        match r {
            Err(m) => (Err(m), p1),
            Ok(()) => (Ok(acc), p1),
        }
    }
}

/// Parses a hash literal: key and value expressions separated by colons,
/// pairs separated by commas, ended by the closing brace.
pub open spec fn sp_hash(toks: Seq<TokenV>, pos: int, acc: Seq<(ExprV, ExprV)>) -> (
    Result<ExprV, Seq<char>>,
    int,
)
    decreases remaining(toks, pos), 4int,
{
    if kind_v(tok_at(toks, pos + 1)) == kind_v(TokenV::RBrace) {
        let (r, p1) = sp_expect(toks, pos, TokenV::RBrace);
        match r {
            Err(m) => (Err(m), p1),
            Ok(()) => (Ok(ExprV::LiteralExpr(ast::LiteralV::Hash(acc))), p1),
        }
    } else if 0 <= pos < toks.len() {
        let p1 = pos + 1;
        let (rk, p2) = sp_expression(toks, p1, 0);
        match rk {
            Err(m) => (Err(m), p2),
            Ok(key) => {
                let (r2, p3) = sp_expect(toks, clamp(p1, p2, toks), TokenV::Colon);
                match r2 {
                    Err(m) => (Err(m), p3),
                    Ok(()) => {
                        let p4 = advance(toks, p3);
                        let (rv, p5) = sp_expression(toks, p4, 0);
                        match rv {
                            Err(m) => (Err(m), p5),
                            Ok(value) => {
                                let p5c = clamp(p4, p5, toks);
                                if kind_v(tok_at(toks, p5c + 1)) == kind_v(TokenV::RBrace) {
                                    sp_hash(toks, p5c, acc.push((key, value)))
                                } else {
                                    let (r3, p6) = sp_expect(toks, p5c, TokenV::Comma);
                                    match r3 {
                                        Err(m) => (Err(m), p6),
                                        Ok(()) => sp_hash(toks, p6, acc.push((key, value))),
                                    }
                                }
                            },
                        }
                    },
                }
            },
        }
    } else {
        (Err(no_prefix_msg(TokenV::EOF)), pos)
    }
}


/// The parser: a cursor over the token stream, with the syntax errors
/// collected so far. The current token stands at `pos`; the peeked token
/// one further; past the end both read as end-of-input.
pub struct Parser {
    tokens: Vec<Token>,
    pos: usize,
    eof: Token,
    pub errors: Vec<String>,
}

impl Parser {
    /// The models of the stream's tokens.
    pub closed spec fn toks_v(&self) -> Seq<TokenV> {
        self.tokens.deep_view()
    }

    /// The current position.
    pub closed spec fn pos_v(&self) -> int {
        self.pos as int
    }

    /// The models of the collected error messages.
    pub closed spec fn errors_v(&self) -> Seq<Seq<char>> {
        self.errors.deep_view()
    }

    /// The cursor never stands further than one past the last token.
    pub closed spec fn wf(&self) -> bool {
        &&& self.pos <= self.tokens@.len()
        &&& self.eof.deep_view() == TokenV::EOF
    }

    /// Builds a parser by drawing every token of the scanner up to the
    /// end-of-input marker.
    pub fn new(l: Lexer) -> (p: Parser)
        requires
            l.wf(),
        ensures
            p.wf(),
            p.toks_v() == lex_tokens_v(l.input_v(), l.pos_v()),
            p.pos_v() == 0,
            p.errors_v() == Seq::<Seq<char>>::empty(),
    {
        let ghost input = l.input_v();
        let ghost pos0 = l.pos_v();
        let mut lx = l;
        let mut tokens: Vec<Token> = Vec::new();
        proof {
            assert(tokens.deep_view() =~= Seq::<TokenV>::empty());
            assert(Seq::<TokenV>::empty() + lex_tokens_v(input, pos0) =~= lex_tokens_v(
                input,
                pos0,
            ));
        }
        proof {
            crate::lexer::lemma_lexer_wf_bounds(lx);
        }
        loop
            invariant_except_break
                lx.wf(),
                lx.input_v() == input,
                0 <= lx.pos_v() <= input.len(),
                tokens.deep_view() + lex_tokens_v(input, lx.pos_v()) == lex_tokens_v(input, pos0),
            ensures
                tokens.deep_view() == lex_tokens_v(input, pos0),
            decreases input.len() - lx.pos_v(),
        {
            let ghost before = lx.pos_v();
            proof {
                crate::lexer::lemma_next_token_progress(input, before);
            }
            let t = lx.next_token();
            let is_eof = t.kind() == Token::EOF.kind();
            if is_eof {
                proof {
                    assert(lex_tokens_v(input, before) =~= Seq::<TokenV>::empty());
                    assert(tokens.deep_view() + Seq::<TokenV>::empty() =~= tokens.deep_view());
                }
                break ;
            }
            let ghost pre = tokens.deep_view();
            tokens.push(t);
            proof {
                assert(tokens.deep_view() =~= pre + seq![t.deep_view()]);
                assert(lex_tokens_v(input, before) == seq![t.deep_view()] + lex_tokens_v(
                    input,
                    lx.pos_v(),
                ));
                assert((pre + seq![t.deep_view()]) + lex_tokens_v(input, lx.pos_v()) =~= pre + (
                seq![t.deep_view()] + lex_tokens_v(input, lx.pos_v())));
            }
        }
        let p = Parser { tokens, pos: 0, eof: Token::EOF, errors: Vec::new() };
        proof {
            assert(p.errors_v() =~= Seq::<Seq<char>>::empty());
        }
        p
    }

    /// Steps the cursor one token forward; at the end of the stream it
    /// stands still.
    pub fn next_token(&mut self)
        requires
            old(self).wf(),
        ensures
            final(self).wf(),
            final(self).toks_v() == old(self).toks_v(),
            final(self).errors_v() == old(self).errors_v(),
            final(self).pos_v() == advance(old(self).toks_v(), old(self).pos_v()),
    {
        if self.pos < self.tokens.len() {
            self.pos = self.pos + 1;
        }
    }

    /// The current token.
    fn curr(&self) -> (t: &Token)
        requires
            self.wf(),
        ensures
            t.deep_view() == tok_at(self.toks_v(), self.pos_v()),
    {
        if self.pos < self.tokens.len() {
            &self.tokens[self.pos]
        } else {
            &self.eof
        }
    }

    /// The peeked token, one past the current one.
    fn peek(&self) -> (t: &Token)
        requires
            self.wf(),
        ensures
            t.deep_view() == tok_at(self.toks_v(), self.pos_v() + 1),
    {
        if self.pos < self.tokens.len() {
            let p2 = self.pos + 1;
            if p2 < self.tokens.len() {
                &self.tokens[p2]
            } else {
                &self.eof
            }
        } else {
            &self.eof
        }
    }

    /// Whether the current token is of the same kind as `t`.
    fn curr_is(&self, t: Token) -> (r: bool)
        requires
            self.wf(),
        ensures
            r == (kind_v(tok_at(self.toks_v(), self.pos_v())) == kind_v(t.deep_view())),
    {
        self.curr().same_kind(&t)
    }

    /// Whether the peeked token is of the same kind as `t`.
    fn peek_is(&self, t: &Token) -> (r: bool)
        requires
            self.wf(),
        ensures
            r == (kind_v(tok_at(self.toks_v(), self.pos_v() + 1)) == kind_v(t.deep_view())),
    {
        self.peek().same_kind(t)
    }

    /// Steps onto the peeked token where it is of the expected kind, else
    /// stays put and reports the mismatch.
    fn expect_peek(&mut self, token: &Token) -> (r: Result<(), String>)
        requires
            old(self).wf(),
            kind_v(token.deep_view()) != kind_v(TokenV::EOF),
        ensures
            final(self).wf(),
            final(self).toks_v() == old(self).toks_v(),
            final(self).errors_v() == old(self).errors_v(),
            ({
                let (r0, p0) = sp_expect(old(self).toks_v(), old(self).pos_v(), token.deep_view());
                &&& final(self).pos_v() == p0
                &&& old(self).pos_v() <= p0 <= old(self).toks_v().len()
                &&& match (r, r0) {
                    (Ok(()), Ok(())) => true,
                    (Err(m), Err(m0)) => m@ == m0,
                    _ => false,
                }
            }),
    {
        if self.peek_is(token) {
            self.next_token();
            Ok(())
        } else {
            self.peek_error(token)
        }
    }

    /// Builds the message reporting that the peeked token is not of the
    /// expected kind.
    fn peek_error(&mut self, t: &Token) -> (r: Result<(), String>)
        requires
            old(self).wf(),
        ensures
            *final(self) == *old(self),
            r matches Err(m) && m@ == expect_msg(
                t.deep_view(),
                tok_at(old(self).toks_v(), old(self).pos_v() + 1),
            ),
    {
        let expected_text = t.text();
        let got_text = self.peek().text();
        let mut msg = String::from_str("expected next token to be ");
        msg.append(expected_text.as_str());
        msg.append(", got ");
        msg.append(got_text.as_str());
        msg.append(" instead");
        Err(msg)
    }

    /// The binding power of a token.
    fn get_precedence(token: &Token) -> (p: Precedence)
        ensures
            level_v(p) == prec_v(token.deep_view()),
    {
        match token {
            Token::Equal => Precedence::Equals,
            Token::NotEqual => Precedence::Equals,
            Token::LT => Precedence::LessGreater,
            Token::GT => Precedence::LessGreater,
            Token::Plus => Precedence::Sum,
            Token::Minus => Precedence::Sum,
            Token::Slash => Precedence::Product,
            Token::Asterick => Precedence::Product,
            Token::LParen => Precedence::Call,
            Token::LBracket => Precedence::Index,
            _ => Precedence::Lowest,
        }
    }

    /// The binding power of the peeked token.
    fn peek_precedence(&self) -> (p: Precedence)
        requires
            self.wf(),
        ensures
            level_v(p) == prec_v(tok_at(self.toks_v(), self.pos_v() + 1)),
    {
        Parser::get_precedence(self.peek())
    }

    /// The binding power of the current token.
    fn curr_precedence(&self) -> (p: Precedence)
        requires
            self.wf(),
        ensures
            level_v(p) == prec_v(tok_at(self.toks_v(), self.pos_v())),
    {
        Parser::get_precedence(self.curr())
    }

    /// The infix continuation a token starts, or an error when it starts
    /// none.
    fn get_infix(token: &Token) -> (r: Result<Infix, String>)
        ensures
            match infix_of(token.deep_view()) {
                Some(op) => r == Ok::<Infix, String>(op),
                None => r matches Err(m) && m@ == Seq::<char>::empty(),
            },
    {
        match token {
            Token::Minus => Ok(Infix::Minus),
            Token::Plus => Ok(Infix::Plus),
            Token::Slash => Ok(Infix::Divide),
            Token::Asterick => Ok(Infix::Multiply),
            Token::Equal => Ok(Infix::Equal),
            Token::NotEqual => Ok(Infix::NotEqual),
            Token::LT => Ok(Infix::LT),
            Token::GT => Ok(Infix::GT),
            Token::LParen => Ok(Infix::Call),
            Token::LBracket => Ok(Infix::Index),
            _ => Err(String::new()),
        }
    }
}


impl Parser {
    /// Parses a let statement.
    #[verifier::rlimit(100)]
    fn parse_let_statement(&mut self) -> (r: Result<Stmt, String>)
        requires
            old(self).wf(),
        ensures
            final(self).wf(),
            final(self).toks_v() == old(self).toks_v(),
            final(self).errors_v() == old(self).errors_v(),
            old(self).pos_v() <= final(self).pos_v() <= old(self).toks_v().len(),
            ({
                let (r0, p0) = sp_let_statement(old(self).toks_v(), old(self).pos_v());
                &&& final(self).pos_v() == p0
                &&& match (r, r0) {
                    (Ok(st), Ok(sv)) => st.deep_view() == sv,
                    (Err(m), Err(mv)) => m@ == mv,
                    _ => false,
                }
            }),
        decreases remaining(self.toks_v(), self.pos_v()), 10int,
    {
        match self.expect_peek(&Token::Ident(String::new())) {
            Ok(()) => {},
            Err(m) => {
                return Err(m);
            },
        }
        let name = match self.curr() {
            Token::Ident(name) => name.clone(),
            _ => {
                return Err("expected an ident but got something else!".to_owned());
            },
        };
        match self.expect_peek(&Token::Assign) {
            Ok(()) => {},
            Err(m) => {
                return Err(m);
            },
        }
        self.next_token();
        let value = match self.parse_expression(Precedence::Lowest) {
            Ok(v) => v,
            Err(m) => {
                return Err(m);
            },
        };
        if self.peek_is(&Token::Semicolon) {
            self.next_token();
        }
        Ok(Stmt::LetStmt(Ident(name), value))
    }

    /// Parses a return statement.
    fn parse_return_statement(&mut self) -> (r: Result<Stmt, String>)
        requires
            old(self).wf(),
        ensures
            final(self).wf(),
            final(self).toks_v() == old(self).toks_v(),
            final(self).errors_v() == old(self).errors_v(),
            old(self).pos_v() <= final(self).pos_v() <= old(self).toks_v().len(),
            ({
                let (r0, p0) = sp_return_statement(old(self).toks_v(), old(self).pos_v());
                &&& final(self).pos_v() == p0
                &&& match (r, r0) {
                    (Ok(st), Ok(sv)) => st.deep_view() == sv,
                    (Err(m), Err(mv)) => m@ == mv,
                    _ => false,
                }
            }),
        decreases remaining(self.toks_v(), self.pos_v()), 10int,
    {
        self.next_token();
        let value = match self.parse_expression(Precedence::Lowest) {
            Ok(v) => v,
            Err(m) => {
                return Err(m);
            },
        };
        if self.peek_is(&Token::Semicolon) {
            self.next_token();
        }
        Ok(Stmt::ReturnStmt(value))
    }

    /// Parses a prefix operation.
    fn parse_prefix(&mut self, p: Prefix) -> (r: Result<Expr, String>)
        requires
            old(self).wf(),
        ensures
            final(self).wf(),
            final(self).toks_v() == old(self).toks_v(),
            final(self).errors_v() == old(self).errors_v(),
            old(self).pos_v() <= final(self).pos_v() <= old(self).toks_v().len(),
            ({
                let (r0, p0) = sp_parse_prefix(old(self).toks_v(), old(self).pos_v(), p);
                &&& final(self).pos_v() == p0
                &&& match (r, r0) {
                    (Ok(e), Ok(ev)) => e.deep_view() == ev,
                    (Err(m), Err(mv)) => m@ == mv,
                    _ => false,
                }
            }),
        decreases remaining(self.toks_v(), self.pos_v()), 4int,
    {
        if self.pos >= self.tokens.len() {
            return Err(no_prefix_eof());
        }
        self.next_token();
        let y = match self.parse_expression(Precedence::Prefix) {
            Ok(v) => v,
            Err(m) => {
                return Err(m);
            },
        };
        Ok(Expr::Prefix(p, Box::new(y)))
    }

    /// Parses the argument list of a call, standing on the opening
    /// parenthesis.
    #[verifier::rlimit(100)]
    fn parse_call_args(&mut self) -> (r: Result<Args, String>)
        requires
            old(self).wf(),
        ensures
            final(self).wf(),
            final(self).toks_v() == old(self).toks_v(),
            final(self).errors_v() == old(self).errors_v(),
            old(self).pos_v() <= final(self).pos_v() <= old(self).toks_v().len(),
            ({
                let (r0, p0) = sp_expression_list(
                    old(self).toks_v(),
                    old(self).pos_v(),
                    TokenV::RParen,
                );
                &&& final(self).pos_v() == p0
                &&& match (r, r0) {
                    (Ok(es), Ok(ev)) => expr_views(es@) == ev,
                    (Err(m), Err(mv)) => m@ == mv,
                    _ => false,
                }
            }),
        decreases remaining(self.toks_v(), self.pos_v()), 3int,
    {
        let ghost toks = self.toks_v();
        let ghost pos0 = self.pos_v();
        let ghost overall = sp_expression_list(toks, pos0, TokenV::RParen);
        let mut args: Vec<Expr> = Vec::new();
        if self.peek_is(&Token::RParen) {
            self.next_token();
            proof {
                assert(expr_views(args@) =~= Seq::<ExprV>::empty());
            }
            return Ok(args);
        }
        if self.pos >= self.tokens.len() {
            return Err(no_prefix_eof());
        }
        self.next_token();
        let first = match self.parse_expression(Precedence::Lowest) {
            Ok(v) => v,
            Err(m) => {
                return Err(m);
            },
        };
        args.push(first);
        proof {
            assert(args@.drop_last() =~= Seq::<Expr>::empty());
            assert(expr_views(args@) =~= seq![args@[0].deep_view()]);
        }
        while self.peek_is(&Token::Comma)
            invariant
                self.wf(),
                toks == old(self).toks_v(),
                pos0 == old(self).pos_v(),
                self.toks_v() == toks,
                self.errors_v() == old(self).errors_v(),
                pos0 + 1 <= self.pos_v() <= toks.len(),
                overall == sp_expression_list(toks, pos0, TokenV::RParen),
                overall == sp_expression_list_loop(
                    toks,
                    self.pos_v(),
                    expr_views(args@),
                    TokenV::RParen,
                ),
            decreases remaining(toks, self.pos_v()),
        {
            self.next_token();
            self.next_token();
            let e = match self.parse_expression(Precedence::Lowest) {
                Ok(v) => v,
                Err(m) => {
                    return Err(m);
                },
            };
            let ghost pre = args@;
            args.push(e);
            proof {
                assert(args@.drop_last() =~= pre);
                assert(expr_views(args@) =~= expr_views(pre).push(args@.last().deep_view()));
            }
        }
        match self.expect_peek(&Token::RParen) {
            Ok(()) => {},
            Err(m) => {
                return Err(m);
            },
        }
        Ok(args)
    }

    /// Parses a call continuation, standing on the opening parenthesis.
    fn parse_call_expr(&mut self, function: &Expr) -> (r: Result<Expr, String>)
        requires
            old(self).wf(),
        ensures
            final(self).wf(),
            final(self).toks_v() == old(self).toks_v(),
            final(self).errors_v() == old(self).errors_v(),
            old(self).pos_v() <= final(self).pos_v() <= old(self).toks_v().len(),
            ({
                let (r0, p0) = sp_call_expr(
                    old(self).toks_v(),
                    old(self).pos_v(),
                    function.deep_view(),
                );
                &&& final(self).pos_v() == p0
                &&& match (r, r0) {
                    (Ok(e), Ok(ev)) => e.deep_view() == ev,
                    (Err(m), Err(mv)) => m@ == mv,
                    _ => false,
                }
            }),
        decreases remaining(self.toks_v(), self.pos_v()), 6int,
    {
        let args = match self.parse_call_args() {
            Ok(a) => a,
            Err(m) => {
                return Err(m);
            },
        };
        Ok(Expr::Call(Box::new(function.clone()), args))
    }

    /// Parses an index continuation, standing on the opening bracket.
    fn parse_index_expr(&mut self, left: &Expr) -> (r: Result<Expr, String>)
        requires
            old(self).wf(),
        ensures
            final(self).wf(),
            final(self).toks_v() == old(self).toks_v(),
            final(self).errors_v() == old(self).errors_v(),
            old(self).pos_v() <= final(self).pos_v() <= old(self).toks_v().len(),
            ({
                let (r0, p0) = sp_index_expr(
                    old(self).toks_v(),
                    old(self).pos_v(),
                    left.deep_view(),
                );
                &&& final(self).pos_v() == p0
                &&& match (r, r0) {
                    (Ok(e), Ok(ev)) => e.deep_view() == ev,
                    (Err(m), Err(mv)) => m@ == mv,
                    _ => false,
                }
            }),
        decreases remaining(self.toks_v(), self.pos_v()), 6int,
    {
        if self.pos >= self.tokens.len() {
            return Err(no_prefix_eof());
        }
        self.next_token();
        let index = match self.parse_expression(Precedence::Lowest) {
            Ok(v) => v,
            Err(m) => {
                return Err(m);
            },
        };
        match self.expect_peek(&Token::RBracket) {
            Ok(()) => {},
            Err(m) => {
                return Err(m);
            },
        }
        Ok(Expr::IndexExpr(Box::new(left.clone()), Box::new(index)))
    }

    /// Parses one infix continuation, standing on its operator token.
    fn parse_infix(&mut self, left: &Expr, operator: Infix) -> (r: Result<Expr, String>)
        requires
            old(self).wf(),
        ensures
            final(self).wf(),
            final(self).toks_v() == old(self).toks_v(),
            final(self).errors_v() == old(self).errors_v(),
            old(self).pos_v() <= final(self).pos_v() <= old(self).toks_v().len(),
            ({
                let (r0, p0) = sp_parse_infix(
                    old(self).toks_v(),
                    old(self).pos_v(),
                    left.deep_view(),
                    operator,
                );
                &&& final(self).pos_v() == p0
                &&& match (r, r0) {
                    (Ok(e), Ok(ev)) => e.deep_view() == ev,
                    (Err(m), Err(mv)) => m@ == mv,
                    _ => false,
                }
            }),
        decreases remaining(self.toks_v(), self.pos_v()), 7int,
    {
        if operator == Infix::Call {
            return self.parse_call_expr(left);
        }
        if operator == Infix::Index {
            return self.parse_index_expr(left);
        }
        let precedence = self.curr_precedence();
        if self.pos >= self.tokens.len() {
            return Err(no_prefix_eof());
        }
        self.next_token();
        let right = match self.parse_expression(precedence) {
            Ok(v) => v,
            Err(m) => {
                return Err(m);
            },
        };
        Ok(Expr::Infix(Box::new(left.clone()), operator, Box::new(right)))
    }

    /// Parses a parenthesised group.
    fn parse_grouped(&mut self) -> (r: Result<Expr, String>)
        requires
            old(self).wf(),
        ensures
            final(self).wf(),
            final(self).toks_v() == old(self).toks_v(),
            final(self).errors_v() == old(self).errors_v(),
            old(self).pos_v() <= final(self).pos_v() <= old(self).toks_v().len(),
            ({
                let (r0, p0) = sp_grouped(old(self).toks_v(), old(self).pos_v());
                &&& final(self).pos_v() == p0
                &&& match (r, r0) {
                    (Ok(e), Ok(ev)) => e.deep_view() == ev,
                    (Err(m), Err(mv)) => m@ == mv,
                    _ => false,
                }
            }),
        decreases remaining(self.toks_v(), self.pos_v()), 4int,
    {
        if self.pos >= self.tokens.len() {
            return Err(no_prefix_eof());
        }
        self.next_token();
        let exp = match self.parse_expression(Precedence::Lowest) {
            Ok(v) => v,
            Err(m) => {
                return Err(m);
            },
        };
        match self.expect_peek(&Token::RParen) {
            Ok(()) => {},
            Err(m) => {
                return Err(m);
            },
        }
        Ok(exp)
    }

    /// Parses a block of statements, standing on the opening brace.
    #[verifier::rlimit(100)]
    #[verifier::spinoff_prover]
    fn parse_block(&mut self) -> (r: Result<Block, String>)
        requires
            old(self).wf(),
        ensures
            final(self).wf(),
            final(self).toks_v() == old(self).toks_v(),
            final(self).errors_v() == old(self).errors_v(),
            old(self).pos_v() <= final(self).pos_v() <= old(self).toks_v().len(),
            ({
                let (r0, p0) = sp_block(old(self).toks_v(), old(self).pos_v());
                &&& final(self).pos_v() == p0
                &&& match (r, r0) {
                    (Ok(b), Ok(bv)) => block_view(b@) == bv,
                    (Err(m), Err(mv)) => m@ == mv,
                    _ => false,
                }
            }),
        decreases remaining(self.toks_v(), self.pos_v()), 14int,
    {
        let ghost toks = self.toks_v();
        let ghost pos0 = self.pos_v();
        let ghost overall = sp_block(toks, pos0);
        let mut block: Vec<Stmt> = Vec::new();
        self.next_token();
        proof {
            assert(block_view(block@) =~= Seq::<StmtV>::empty());
        }
        while !self.curr_is(Token::RBrace) && !self.curr_is(Token::EOF)
            invariant
                self.wf(),
                toks == old(self).toks_v(),
                pos0 == old(self).pos_v(),
                self.toks_v() == toks,
                self.errors_v() == old(self).errors_v(),
                pos0 <= self.pos_v() <= toks.len(),
                overall == sp_block(toks, pos0),
                overall == sp_block_loop(toks, self.pos_v(), block_view(block@)),
            decreases remaining(toks, self.pos_v()),
        {
            let ghost p_start = self.pos_v();
            let ghost acc_start = block_view(block@);
            let s = match self.parse_statement() {
                Ok(s) => s,
                Err(m) => {
                    return Err(m);
                },
            };
            let ghost pre = block@;
            block.push(s);
            proof {
                assert(block@.drop_last() =~= pre);
            }
            self.next_token();
            proof {
                assert(sp_block_loop(toks, p_start, acc_start) == sp_block_loop(
                    toks,
                    self.pos_v(),
                    block_view(block@),
                ));
            }
        }
        Ok(block)
    }

    /// Parses a conditional.
    #[verifier::rlimit(100)]
    fn parse_if(&mut self) -> (r: Result<Expr, String>)
        requires
            old(self).wf(),
        ensures
            final(self).wf(),
            final(self).toks_v() == old(self).toks_v(),
            final(self).errors_v() == old(self).errors_v(),
            old(self).pos_v() <= final(self).pos_v() <= old(self).toks_v().len(),
            ({
                let (r0, p0) = sp_if(old(self).toks_v(), old(self).pos_v());
                &&& final(self).pos_v() == p0
                &&& match (r, r0) {
                    (Ok(e), Ok(ev)) => e.deep_view() == ev,
                    (Err(m), Err(mv)) => m@ == mv,
                    _ => false,
                }
            }),
        decreases remaining(self.toks_v(), self.pos_v()), 4int,
    {
        match self.expect_peek(&Token::LParen) {
            Ok(()) => {},
            Err(m) => {
                return Err(m);
            },
        }
        self.next_token();
        // Parse the condition
        let condition = match self.parse_expression(Precedence::Lowest) {
            Ok(v) => v,
            Err(m) => {
                return Err(m);
            },
        };
        match self.expect_peek(&Token::RParen) {
            Ok(()) => {},
            Err(m) => {
                return Err(m);
            },
        }
        match self.expect_peek(&Token::LBrace) {
            Ok(()) => {},
            Err(m) => {
                return Err(m);
            },
        }
        // Parse the if block
        let consequence = match self.parse_block() {
            Ok(b) => b,
            Err(m) => {
                return Err(m);
            },
        };
        // Parse optional else block if available
        let alternative = if self.peek_is(&Token::Else) {
            self.next_token();
            match self.expect_peek(&Token::LBrace) {
                Ok(()) => {},
                Err(m) => {
                    return Err(m);
                },
            }
            match self.parse_block() {
                Ok(b) => Some(b),
                Err(m) => {
                    return Err(m);
                },
            }
        } else {
            None
        };
        Ok(Expr::If(Box::new(condition), consequence, alternative))
    }

    /// Parses a parameter list, standing on the opening parenthesis.
    #[verifier::rlimit(100)]
    fn parse_params(&mut self) -> (r: Result<Params, String>)
        requires
            old(self).wf(),
        ensures
            final(self).wf(),
            final(self).toks_v() == old(self).toks_v(),
            final(self).errors_v() == old(self).errors_v(),
            old(self).pos_v() <= final(self).pos_v() <= old(self).toks_v().len(),
            ({
                let (r0, p0) = sp_params(old(self).toks_v(), old(self).pos_v());
                &&& final(self).pos_v() == p0
                &&& match (r, r0) {
                    (Ok(ps), Ok(pv)) => param_views(ps@) == pv,
                    (Err(m), Err(mv)) => m@ == mv,
                    _ => false,
                }
            }),
        decreases remaining(self.toks_v(), self.pos_v()), 3int,
    {
        let ghost toks = self.toks_v();
        let ghost pos0 = self.pos_v();
        let ghost overall = sp_params(toks, pos0);
        let mut identifiers: Vec<Ident> = Vec::new();
        if self.peek_is(&Token::RParen) {
            self.next_token();
            proof {
                assert(param_views(identifiers@) =~= Seq::<Seq<char>>::empty());
            }
            return Ok(identifiers);
        }
        self.next_token();
        proof {
            assert(self.pos_v() == advance(toks, pos0));
        }
        let first = match self.curr() {
            Token::Ident(s) => s.clone(),
            _ => {
                return Err("Token is not an identifier".to_owned());
            },
        };
        identifiers.push(Ident(first));
        proof {
            assert(param_views(identifiers@) =~= seq![identifiers@[0].deep_view()]);
        }
        while self.peek_is(&Token::Comma)
            invariant
                self.wf(),
                toks == old(self).toks_v(),
                pos0 == old(self).pos_v(),
                self.toks_v() == toks,
                self.errors_v() == old(self).errors_v(),
                pos0 <= self.pos_v() <= toks.len(),
                overall == sp_params(toks, pos0),
                overall == sp_params_loop(toks, self.pos_v(), param_views(identifiers@)),
            decreases remaining(toks, self.pos_v()),
        {
            self.next_token();
            self.next_token();
            let name = match self.curr() {
                Token::Ident(s) => s.clone(),
                _ => {
                    return Err("Token is not an identifier".to_owned());
                },
            };
            let ghost pre = identifiers@;
            identifiers.push(Ident(name));
            proof {
                assert(param_views(identifiers@) =~= param_views(pre).push(
                    identifiers@.last().deep_view(),
                ));
            }
        }
        match self.expect_peek(&Token::RParen) {
            Ok(()) => {},
            Err(m) => {
                return Err(m);
            },
        }
        Ok(identifiers)
    }

    /// Parses a function literal.
    fn parse_function(&mut self) -> (r: Result<Expr, String>)
        requires
            old(self).wf(),
        ensures
            final(self).wf(),
            final(self).toks_v() == old(self).toks_v(),
            final(self).errors_v() == old(self).errors_v(),
            old(self).pos_v() <= final(self).pos_v() <= old(self).toks_v().len(),
            ({
                let (r0, p0) = sp_function(old(self).toks_v(), old(self).pos_v());
                &&& final(self).pos_v() == p0
                &&& match (r, r0) {
                    (Ok(e), Ok(ev)) => e.deep_view() == ev,
                    (Err(m), Err(mv)) => m@ == mv,
                    _ => false,
                }
            }),
        decreases remaining(self.toks_v(), self.pos_v()), 4int,
    {
        match self.expect_peek(&Token::LParen) {
            Ok(()) => {},
            Err(m) => {
                return Err(m);
            },
        }
        let parameters = match self.parse_params() {
            Ok(ps) => ps,
            Err(m) => {
                return Err(m);
            },
        };
        match self.expect_peek(&Token::LBrace) {
            Ok(()) => {},
            Err(m) => {
                return Err(m);
            },
        }
        let block = match self.parse_block() {
            Ok(b) => b,
            Err(m) => {
                return Err(m);
            },
        };
        Ok(Expr::Fn(parameters, block))
    }

    /// The prefix part of the given token, which is the parser's current
    /// token.
    #[verifier::rlimit(100)]
    fn get_prefix(&mut self, token: &Token) -> (r: Result<Expr, String>)
        requires
            old(self).wf(),
            token.deep_view() == tok_at(old(self).toks_v(), old(self).pos_v()),
        ensures
            final(self).wf(),
            final(self).toks_v() == old(self).toks_v(),
            final(self).errors_v() == old(self).errors_v(),
            old(self).pos_v() <= final(self).pos_v() <= old(self).toks_v().len(),
            ({
                let (r0, p0) = sp_prefix_dispatch(old(self).toks_v(), old(self).pos_v());
                &&& final(self).pos_v() == p0
                &&& match (r, r0) {
                    (Ok(e), Ok(ev)) => e.deep_view() == ev,
                    (Err(m), Err(mv)) => m@ == mv,
                    _ => false,
                }
            }),
        decreases remaining(self.toks_v(), self.pos_v()), 5int,
    {
        match token {
            Token::Ident(x) => {
                let e = Expr::IdentExpr(Ident(x.clone()));
                proof {
                    assert(e.deep_view() == ExprV::IdentExpr(x@));
                    assert(tok_at(self.toks_v(), self.pos_v()) == TokenV::Ident(x@));
                }
                Ok(e)
            },
            Token::Int(x) => {
                let e = Expr::LiteralExpr(Literal::Int(*x));
                proof {
                    assert(ast::literal_view(Literal::Int(*x)) == ast::LiteralV::Int(*x));
                    assert(e.deep_view() == ExprV::LiteralExpr(ast::LiteralV::Int(*x)));
                    assert(tok_at(self.toks_v(), self.pos_v()) == TokenV::Int(*x));
                }
                Ok(e)
            },
            Token::True => {
                let e = Expr::LiteralExpr(Literal::Bool(true));
                proof {
                    assert(ast::literal_view(Literal::Bool(true)) == ast::LiteralV::Bool(true));
                    assert(e.deep_view() == ExprV::LiteralExpr(ast::LiteralV::Bool(true)));
                    assert(tok_at(self.toks_v(), self.pos_v()) == TokenV::True);
                }
                Ok(e)
            },
            Token::False => {
                let e = Expr::LiteralExpr(Literal::Bool(false));
                proof {
                    assert(ast::literal_view(Literal::Bool(false)) == ast::LiteralV::Bool(false));
                    assert(e.deep_view() == ExprV::LiteralExpr(ast::LiteralV::Bool(false)));
                    assert(tok_at(self.toks_v(), self.pos_v()) == TokenV::False);
                }
                Ok(e)
            },
            Token::Str(x) => {
                let s2 = x.clone();
                let ghost s2v = s2@;
                let e = Expr::LiteralExpr(Literal::Str(s2));
                proof {
                    assert(ast::literal_view(Literal::Str(s2)) == ast::LiteralV::Str(s2v));
                    assert(e.deep_view() == ExprV::LiteralExpr(ast::LiteralV::Str(x@)));
                    assert(tok_at(self.toks_v(), self.pos_v()) == TokenV::Str(x@));
                }
                Ok(e)
            },
            Token::Minus => self.parse_prefix(Prefix::Minus),
            Token::Plus => self.parse_prefix(Prefix::Plus),
            Token::Bang => self.parse_prefix(Prefix::Not),
            Token::LParen => self.parse_grouped(),
            Token::If => self.parse_if(),
            Token::Function => self.parse_function(),
            Token::LBracket => self.parse_array(),
            Token::LBrace => self.parse_hash_literal(),
            _ => {
                let text = token.text();
                let mut msg = String::from_str("No prefix defined for ");
                msg.append(text.as_str());
                Err(msg)
            },
        }
    }

    /// Parses a hash literal, standing on the opening brace.
    #[verifier::rlimit(100)]
    fn parse_hash_literal(&mut self) -> (r: Result<Expr, String>)
        requires
            old(self).wf(),
        ensures
            final(self).wf(),
            final(self).toks_v() == old(self).toks_v(),
            final(self).errors_v() == old(self).errors_v(),
            old(self).pos_v() <= final(self).pos_v() <= old(self).toks_v().len(),
            ({
                let (r0, p0) = sp_hash(old(self).toks_v(), old(self).pos_v(), Seq::empty());
                &&& final(self).pos_v() == p0
                &&& match (r, r0) {
                    (Ok(e), Ok(ev)) => e.deep_view() == ev,
                    (Err(m), Err(mv)) => m@ == mv,
                    _ => false,
                }
            }),
        decreases remaining(self.toks_v(), self.pos_v()), 4int,
    {
        let ghost toks = self.toks_v();
        let ghost pos0 = self.pos_v();
        let ghost overall = sp_hash(toks, pos0, Seq::empty());
        let mut list: Vec<(Expr, Expr)> = Vec::new();
        proof {
            assert(pair_views(list@) =~= Seq::<(ExprV, ExprV)>::empty());
        }
        while !self.peek_is(&Token::RBrace)
            invariant
                self.wf(),
                toks == old(self).toks_v(),
                pos0 == old(self).pos_v(),
                self.toks_v() == toks,
                self.errors_v() == old(self).errors_v(),
                pos0 <= self.pos_v() <= toks.len(),
                overall == sp_hash(toks, pos0, Seq::empty()),
                overall == sp_hash(toks, self.pos_v(), pair_views(list@)),
            decreases remaining(toks, self.pos_v()),
        {
            if self.pos >= self.tokens.len() {
                return Err(no_prefix_eof());
            }
            self.next_token();
            let key = match self.parse_expression(Precedence::Lowest) {
                Ok(v) => v,
                Err(m) => {
                    return Err(m);
                },
            };
            match self.expect_peek(&Token::Colon) {
                Ok(()) => {},
                Err(m) => {
                    return Err(m);
                },
            }
            self.next_token();
            let value = match self.parse_expression(Precedence::Lowest) {
                Ok(v) => v,
                Err(m) => {
                    return Err(m);
                },
            };
            let ghost pre = list@;
            list.push((key, value));
            proof {
                assert(list@.drop_last() =~= pre);
            }
            if !self.peek_is(&Token::RBrace) {
                match self.expect_peek(&Token::Comma) {
                    Ok(()) => {},
                    Err(m) => {
                        return Err(m);
                    },
                }
            }
        }
        proof {
            assert(kind_v(tok_at(toks, self.pos_v() + 1)) == kind_v(TokenV::RBrace));
        }
        match self.expect_peek(&Token::RBrace) {
            Ok(()) => {},
            Err(m) => {
                return Err(m);
            },
        }
        let e = Expr::LiteralExpr(Literal::Hash(list));
        proof {
            assert(e.deep_view() matches ExprV::LiteralExpr(_));
            assert(ast::literal_view(Literal::Hash(list)) == ast::LiteralV::Hash(
                pair_views(list@),
            ));
            assert(e.deep_view() == ExprV::LiteralExpr(ast::LiteralV::Hash(pair_views(list@))));
        }
        Ok(e)
    }

    /// Parses an array literal, standing on the opening bracket.
    fn parse_array(&mut self) -> (r: Result<Expr, String>)
        requires
            old(self).wf(),
        ensures
            final(self).wf(),
            final(self).toks_v() == old(self).toks_v(),
            final(self).errors_v() == old(self).errors_v(),
            old(self).pos_v() <= final(self).pos_v() <= old(self).toks_v().len(),
            ({
                let (r0, p0) = sp_array(old(self).toks_v(), old(self).pos_v());
                &&& final(self).pos_v() == p0
                &&& match (r, r0) {
                    (Ok(e), Ok(ev)) => e.deep_view() == ev,
                    (Err(m), Err(mv)) => m@ == mv,
                    _ => false,
                }
            }),
        decreases remaining(self.toks_v(), self.pos_v()), 4int,
    {
        let elements = match self.parse_expression_list(&Token::RBracket) {
            Ok(es) => es,
            Err(m) => {
                return Err(m);
            },
        };
        Ok(Expr::Array(elements))
    }

    /// Parses a comma-separated expression list ended by a token of the
    /// kind of `end`, standing on the opening delimiter.
    #[verifier::rlimit(100)]
    fn parse_expression_list(&mut self, end: &Token) -> (r: Result<Vec<Expr>, String>)
        requires
            old(self).wf(),
            kind_v(end.deep_view()) != kind_v(TokenV::EOF),
        ensures
            final(self).wf(),
            final(self).toks_v() == old(self).toks_v(),
            final(self).errors_v() == old(self).errors_v(),
            old(self).pos_v() <= final(self).pos_v() <= old(self).toks_v().len(),
            ({
                let (r0, p0) = sp_expression_list(
                    old(self).toks_v(),
                    old(self).pos_v(),
                    end.deep_view(),
                );
                &&& final(self).pos_v() == p0
                &&& match (r, r0) {
                    (Ok(es), Ok(ev)) => expr_views(es@) == ev,
                    (Err(m), Err(mv)) => m@ == mv,
                    _ => false,
                }
            }),
        decreases remaining(self.toks_v(), self.pos_v()), 3int,
    {
        let ghost toks = self.toks_v();
        let ghost pos0 = self.pos_v();
        let ghost overall = sp_expression_list(toks, pos0, end.deep_view());
        let mut list: Vec<Expr> = Vec::new();
        if self.peek_is(end) {
            self.next_token();
            proof {
                assert(expr_views(list@) =~= Seq::<ExprV>::empty());
            }
            return Ok(list);
        }
        if self.pos >= self.tokens.len() {
            return Err(no_prefix_eof());
        }
        self.next_token();
        let first = match self.parse_expression(Precedence::Lowest) {
            Ok(v) => v,
            Err(m) => {
                return Err(m);
            },
        };
        list.push(first);
        proof {
            assert(list@.drop_last() =~= Seq::<Expr>::empty());
            assert(expr_views(list@) =~= seq![list@[0].deep_view()]);
        }
        while self.peek_is(&Token::Comma)
            invariant
                self.wf(),
                toks == old(self).toks_v(),
                pos0 == old(self).pos_v(),
                self.toks_v() == toks,
                self.errors_v() == old(self).errors_v(),
                pos0 + 1 <= self.pos_v() <= toks.len(),
                overall == sp_expression_list(toks, pos0, end.deep_view()),
                overall == sp_expression_list_loop(
                    toks,
                    self.pos_v(),
                    expr_views(list@),
                    end.deep_view(),
                ),
            decreases remaining(toks, self.pos_v()),
        {
            self.next_token();
            self.next_token();
            let e = match self.parse_expression(Precedence::Lowest) {
                Ok(v) => v,
                Err(m) => {
                    return Err(m);
                },
            };
            let ghost pre = list@;
            list.push(e);
            proof {
                assert(list@.drop_last() =~= pre);
                assert(expr_views(list@) =~= expr_views(pre).push(list@.last().deep_view()));
            }
        }
        match self.expect_peek(end) {
            Ok(()) => {},
            Err(m) => {
                return Err(m);
            },
        }
        Ok(list)
    }

    /// Parses one expression by precedence climbing.
    #[verifier::rlimit(100)]
    fn parse_expression(&mut self, precedece: Precedence) -> (r: Result<Expr, String>)
        requires
            old(self).wf(),
        ensures
            final(self).wf(),
            final(self).toks_v() == old(self).toks_v(),
            final(self).errors_v() == old(self).errors_v(),
            old(self).pos_v() <= final(self).pos_v() <= old(self).toks_v().len(),
            ({
                let (r0, p0) = sp_expression(
                    old(self).toks_v(),
                    old(self).pos_v(),
                    level_v(precedece),
                );
                &&& final(self).pos_v() == p0
                &&& match (r, r0) {
                    (Ok(e), Ok(ev)) => e.deep_view() == ev,
                    (Err(m), Err(mv)) => m@ == mv,
                    _ => false,
                }
            }),
        decreases remaining(self.toks_v(), self.pos_v()), 9int,
    {
        let ghost toks = self.toks_v();
        let ghost pos0 = self.pos_v();
        let cur = self.curr().clone();
        let prefix = match self.get_prefix(&cur) {
            Ok(e) => e,
            Err(m) => {
                return Err(m);
            },
        };
        let mut left = prefix;
        while !self.peek_is(&Token::Semicolon) && precedece.level()
            < self.peek_precedence().level()
            invariant
                self.wf(),
                toks == old(self).toks_v(),
                pos0 == old(self).pos_v(),
                self.toks_v() == toks,
                self.errors_v() == old(self).errors_v(),
                pos0 <= self.pos_v() <= toks.len(),
                sp_expression(toks, pos0, level_v(precedece)) == sp_infix_loop(
                    toks,
                    self.pos_v(),
                    left.deep_view(),
                    level_v(precedece),
                ),
            decreases remaining(toks, self.pos_v()),
        {
            let pk = self.peek().clone();
            let infix = match Parser::get_infix(&pk) {
                Ok(op) => op,
                Err(m) => {
                    return Err(m);
                },
            };
            self.next_token();
            let newleft = match self.parse_infix(&left, infix) {
                Ok(e) => e,
                Err(m) => {
                    return Err(m);
                },
            };
            left = newleft;
        }
        Ok(left)
    }

    /// Parses an expression statement.
    fn parse_expression_statement(&mut self) -> (r: Result<Stmt, String>)
        requires
            old(self).wf(),
        ensures
            final(self).wf(),
            final(self).toks_v() == old(self).toks_v(),
            final(self).errors_v() == old(self).errors_v(),
            old(self).pos_v() <= final(self).pos_v() <= old(self).toks_v().len(),
            ({
                let (r0, p0) = sp_expression_statement(old(self).toks_v(), old(self).pos_v());
                &&& final(self).pos_v() == p0
                &&& match (r, r0) {
                    (Ok(st), Ok(sv)) => st.deep_view() == sv,
                    (Err(m), Err(mv)) => m@ == mv,
                    _ => false,
                }
            }),
        decreases remaining(self.toks_v(), self.pos_v()), 10int,
    {
        let exp = match self.parse_expression(Precedence::Lowest) {
            Ok(e) => e,
            Err(m) => {
                return Err(m);
            },
        };
        if self.peek_is(&Token::Semicolon) {
            self.next_token();
        }
        Ok(Stmt::ExprStmt(exp))
    }

    /// Parses one statement, dispatching on the current token.
    #[verifier::rlimit(100)]
    fn parse_statement(&mut self) -> (r: Result<Stmt, String>)
        requires
            old(self).wf(),
        ensures
            final(self).wf(),
            final(self).toks_v() == old(self).toks_v(),
            final(self).errors_v() == old(self).errors_v(),
            old(self).pos_v() <= final(self).pos_v() <= old(self).toks_v().len(),
            ({
                let (r0, p0) = sp_statement(old(self).toks_v(), old(self).pos_v());
                &&& final(self).pos_v() == p0
                &&& match (r, r0) {
                    (Ok(st), Ok(sv)) => st.deep_view() == sv,
                    (Err(m), Err(mv)) => m@ == mv,
                    _ => false,
                }
            }),
        decreases remaining(self.toks_v(), self.pos_v()), 11int,
    {
        let ghost toks = self.toks_v();
        let ghost pos0 = self.pos_v();
        if self.curr_is(Token::Let) {
            proof {
                assert(tok_at(toks, pos0) matches TokenV::Let);
                assert(sp_statement(toks, pos0) == sp_let_statement(toks, pos0));
            }
            self.parse_let_statement()
        } else if self.curr_is(Token::Return) {
            proof {
                assert(tok_at(toks, pos0) matches TokenV::Return);
                assert(sp_statement(toks, pos0) == sp_return_statement(toks, pos0));
            }
            self.parse_return_statement()
        } else {
            proof {
                assert(sp_statement(toks, pos0) == sp_expression_statement(toks, pos0));
            }
            self.parse_expression_statement()
        }
    }

    /// Parses a whole program: the parsed statements where the source is
    /// well formed, otherwise the complete list of accumulated syntax
    /// errors. Parsing the same token stream twice yields structurally
    /// identical trees, since the result is a function of the stream alone.
    pub fn parse_program(&mut self) -> (r: Result<Program, Vec<String>>)
        requires
            old(self).wf(),
        ensures
            final(self).wf(),
            final(self).toks_v() == old(self).toks_v(),
            ({
                let (stmts, errs, p0) = sp_program(
                    old(self).toks_v(),
                    old(self).pos_v(),
                    Seq::empty(),
                    old(self).errors_v(),
                );
                &&& final(self).pos_v() == p0
                &&& final(self).errors_v() == errs
                &&& match r {
                    Ok(prog) => errs.len() == 0 && block_view(prog@) == stmts,
                    Err(es) => errs.len() > 0 && es.deep_view() == errs,
                }
            }),
    {
        let ghost toks = self.toks_v();
        let ghost pos0 = self.pos_v();
        let ghost overall = sp_program(toks, pos0, Seq::empty(), self.errors_v());
        let mut program: Vec<Stmt> = Vec::new();
        proof {
            assert(block_view(program@) =~= Seq::<StmtV>::empty());
        }
        while !self.curr_is(Token::EOF)
            invariant
                self.wf(),
                toks == old(self).toks_v(),
                pos0 == old(self).pos_v(),
                pos0 <= self.pos_v(),
                self.toks_v() == toks,
                self.pos_v() <= toks.len(),
                overall == sp_program(toks, pos0, Seq::empty(), old(self).errors_v()),
                overall == sp_program(toks, self.pos_v(), block_view(program@), self.errors_v()),
            decreases remaining(toks, self.pos_v()),
        {
            match self.parse_statement() {
                Ok(x) => {
                    let ghost pre = program@;
                    program.push(x);
                    proof {
                        assert(program@.drop_last() =~= pre);
                    }
                },
                Err(x) => {
                    let ghost pre = self.errors.deep_view();
                    self.errors.push(x);
                    proof {
                        assert(self.errors.deep_view() =~= pre.push(
                            self.errors@.last().deep_view(),
                        ));
                    }
                },
            }
            self.next_token();
        }
        if self.errors.len() != 0 {
            Err(clone_strings(&self.errors))
        } else {
            Ok(program)
        }
    }
}

/// The message for reaching the end of the input where an expression was
/// expected.
fn no_prefix_eof() -> (m: String)
    ensures
        m@ == no_prefix_msg(TokenV::EOF),
{
    let eof = Token::EOF;
    let text = eof.text();
    let mut msg = String::from_str("No prefix defined for ");
    msg.append(text.as_str());
    msg
}

/// Copies a list of strings.
fn clone_strings(es: &Vec<String>) -> (r: Vec<String>)
    ensures
        r@ == es@,
        r.deep_view() == es.deep_view(),
{
    let mut out: Vec<String> = Vec::new();
    let mut i: usize = 0;
    while i < es.len()
        invariant
            i <= es@.len(),
            out@ == es@.take(i as int),
        decreases es@.len() - i,
    {
        out.push(es[i].clone());
        i = i + 1;
        proof {
            assert(out@ =~= es@.take(i as int));
        }
    }
    proof {
        assert(es@.take(es@.len() as int) =~= es@);
        assert(out.deep_view() =~= es.deep_view());
    }
    out
}


/// Parse determinism: the program and the error list a parse yields are a
/// mathematical function of the token stream alone — `parse_program`'s
/// contract pins its result to `sp_program` of the stream — so parsing
/// streams with equal models twice yields structurally identical trees and
/// identical errors. There is no hidden state.
pub proof fn lemma_parse_deterministic(toks1: Seq<TokenV>, toks2: Seq<TokenV>)
    requires
        toks1 == toks2,
    ensures
        sp_program(toks1, 0, Seq::empty(), Seq::empty()) == sp_program(
            toks2,
            0,
            Seq::empty(),
            Seq::empty(),
        ),
{
}

} // verus!
