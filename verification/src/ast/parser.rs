//! The recursive-descent parser from tokens to the abstract syntax tree.
//!
//! The executable [`ASTParser`] is specified against the mathematical
//! parser [`spec_parse_program`], which pins, for every token sequence and
//! source buffer, either the exact tree built or the exact kind and source
//! span of the error reported.

use vstd::prelude::*;
use vstd::string::*;
use core::ops::Range;
use crate::ast::symbols::{
    decl_unary_count, expr_unary_count, program_model, stmts_unary_count, ConstantValue, Declaration, DeclModel, Expression, ExprModel,
    FunctionDefinition, FunModel, Program, Statement, StmtModel, UnaryExpressionType,
};
use crate::lex::lexer::{Tag, Token, TokenModel};

verus! {

/// The deepest unary-operator and parenthesis nesting the parser accepts;
/// deeper expressions are rejected cleanly instead of exhausting the stack.
pub const MAX_EXPRESSION_DEPTH: usize = 1000;

/// Ghost image of a parse failure: its kind and the index of the
/// offending token (the token count when the input ended early).
pub enum ParseErr {
    Syntax { at: int },
    Internal { at: int },
}

/// Ghost outcome of parsing one expression.
pub enum ExprParse {
    Found { consumed: nat, expr: ExprModel },
    Fail(ParseErr),
}

/// Ghost outcome of parsing a statement list up to and including the
/// closing brace.
pub enum StmtsParse {
    Found { consumed: nat, stmts: Seq<StmtModel> },
    Fail(ParseErr),
}

/// Ghost outcome of parsing a function's argument list and body; `next` is
/// the token index one past the closing brace.
pub enum FunParse {
    Found { next: int, stmts: Seq<StmtModel> },
    Fail(ParseErr),
}

/// Ghost outcome of parsing a whole program.
pub enum ProgParse {
    Found { decls: Seq<DeclModel> },
    Fail(ParseErr),
}

/// Ghost image of a token sequence.
pub open spec fn tok_models(ts: Seq<Token>) -> Seq<TokenModel> {
    ts.map_values(|t: Token| t@)
}

/// Ghost image of a statement sequence.
pub open spec fn stmt_models(ss: Seq<Statement>) -> Seq<StmtModel> {
    ss.map_values(|s: Statement| s@)
}

/// A token's span lies within the source buffer, so its text can be read.
pub open spec fn span_ok(t: TokenModel, buf: Seq<char>) -> bool {
    0 <= t.start <= t.end <= buf.len()
}

/// The source span an error at token index `at` points to: the offending
/// token's span, or the zero-length span at the buffer end when the input
/// ended early.
pub open spec fn error_span(toks: Seq<TokenModel>, buf: Seq<char>, at: int) -> (int, int) {
    if 0 <= at < toks.len() {
        (toks[at].start, toks[at].end)
    } else {
        (buf.len() as int, buf.len() as int)
    }
}

/// The mathematical expression parser, with the grammar
/// `Expression := IntegerLiteral | UnaryOperator Expression | '(' Expression ')'`.
/// Unary operators wrap the result of parsing what follows, so source
/// nesting order maps directly to tree nesting order. A missing `)` is
/// reported at the token immediately following the parenthesized
/// sub-expression.
pub open spec fn spec_parse_expression(
    toks: Seq<TokenModel>,
    buf: Seq<char>,
    i: int,
    depth: nat,
) -> ExprParse
    decreases depth,
{
    if i < 0 || i >= toks.len() {
        ExprParse::Fail(ParseErr::Syntax { at: i })
    } else {
        let t = toks[i];
        if t.tag == Tag::NumberLiteral {
            if span_ok(t, buf) {
                ExprParse::Found {
                    consumed: 1,
                    expr: ExprModel::Constant(buf.subrange(t.start, t.end)),
                }
            } else {
                ExprParse::Fail(ParseErr::Internal { at: i })
            }
        } else if t.tag == Tag::OpNegation || t.tag == Tag::OpComplement {
            if depth == 0 {
                ExprParse::Fail(ParseErr::Syntax { at: i })
            } else {
                let op = if t.tag == Tag::OpNegation {
                    UnaryExpressionType::Negation
                } else {
                    UnaryExpressionType::Complement
                };
                match spec_parse_expression(toks, buf, i + 1, (depth - 1) as nat) {
                    ExprParse::Found { consumed, expr } => ExprParse::Found {
                        consumed: consumed + 1,
                        expr: ExprModel::Unary(op, Box::new(expr)),
                    },
                    ExprParse::Fail(e) => ExprParse::Fail(e),
                }
            }
        } else if t.tag == Tag::LParen {
            if depth == 0 {
                ExprParse::Fail(ParseErr::Syntax { at: i })
            } else {
                match spec_parse_expression(toks, buf, i + 1, (depth - 1) as nat) {
                    ExprParse::Found { consumed, expr } => if i + 1 + consumed < toks.len() && toks[
                        i + 1 + consumed
                    ].tag == Tag::RParen {
                        ExprParse::Found { consumed: consumed + 2, expr }
                    } else {
                        ExprParse::Fail(ParseErr::Syntax { at: i + 1 + consumed })
                    },
                    ExprParse::Fail(e) => ExprParse::Fail(e),
                }
            }
        } else {
            ExprParse::Fail(ParseErr::Syntax { at: i })
        }
    }
}

/// The mathematical statement-list parser: a maximal sequence of
/// `return Expression ;` statements, ended by the closing brace, which it
/// consumes. Running out of tokens mid-body is a syntax error at the
/// position where more input was expected.
pub open spec fn spec_parse_statements(toks: Seq<TokenModel>, buf: Seq<char>, i: int) -> StmtsParse
    decreases toks.len() - i,
{
    if i < 0 || i >= toks.len() {
        StmtsParse::Fail(ParseErr::Syntax { at: i })
    } else if toks[i].tag == Tag::RBrace {
        StmtsParse::Found { consumed: 1, stmts: Seq::empty() }
    } else if toks[i].tag == Tag::KReturn {
        match spec_parse_expression(toks, buf, i + 1, MAX_EXPRESSION_DEPTH as nat) {
            ExprParse::Found { consumed, expr } => if i + 1 + consumed < toks.len() {
                if toks[i + 1 + consumed].tag == Tag::Semicolon {
                    match spec_parse_statements(toks, buf, i + 2 + consumed) {
                        StmtsParse::Found { consumed: c2, stmts } => StmtsParse::Found {
                            consumed: 2 + consumed + c2,
                            stmts: seq![StmtModel::Return(expr)] + stmts,
                        },
                        StmtsParse::Fail(e) => StmtsParse::Fail(e),
                    }
                } else {
                    StmtsParse::Fail(ParseErr::Syntax { at: i + 1 + consumed })
                }
            } else {
                StmtsParse::Fail(ParseErr::Syntax { at: toks.len() as int })
            },
            ExprParse::Fail(e) => StmtsParse::Fail(e),
        }
    } else {
        StmtsParse::Fail(ParseErr::Syntax { at: i })
    }
}

/// One past the argument list beginning at `i`: the argument list is
/// either empty or the single keyword `void`, with no named parameters.
pub open spec fn after_argument_list(toks: Seq<TokenModel>, i: int) -> int {
    if 0 <= i < toks.len() && toks[i].tag == Tag::KVoid {
        i + 1
    } else {
        i
    }
}

/// The mathematical function parser, applied at the expected `(`: argument
/// list (`void` or empty), closing parenthesis, opening brace, then the
/// statement list up to the closing brace.
pub open spec fn spec_parse_function(toks: Seq<TokenModel>, buf: Seq<char>, i: int) -> FunParse {
    if !(0 <= i < toks.len() && toks[i].tag == Tag::LParen) {
        FunParse::Fail(ParseErr::Syntax { at: i })
    } else {
        let j = after_argument_list(toks, i + 1);
        if !(j < toks.len() && toks[j].tag == Tag::RParen) {
            FunParse::Fail(ParseErr::Syntax { at: j })
        } else if !(j + 1 < toks.len() && toks[j + 1].tag == Tag::LBrace) {
            FunParse::Fail(ParseErr::Syntax { at: j + 1 })
        } else {
            match spec_parse_statements(toks, buf, j + 2) {
                StmtsParse::Found { consumed, stmts } => FunParse::Found {
                    next: j + 2 + consumed,
                    stmts,
                },
                StmtsParse::Fail(e) => FunParse::Fail(e),
            }
        }
    }
}

/// A found expression consumes at least one token and stays within the
/// token sequence.
pub proof fn lemma_parse_expression_consumed(
    toks: Seq<TokenModel>,
    buf: Seq<char>,
    i: int,
    depth: nat,
)
    ensures
        spec_parse_expression(toks, buf, i, depth) matches ExprParse::Found { consumed, .. }
            ==> 1 <= consumed && i + consumed <= toks.len(),
    decreases depth,
{
    if 0 <= i < toks.len() && depth > 0 {
        lemma_parse_expression_consumed(toks, buf, i + 1, (depth - 1) as nat);
    }
}

/// A found statement list consumes at least one token (the closing brace)
/// and stays within the token sequence.
pub proof fn lemma_parse_statements_consumed(toks: Seq<TokenModel>, buf: Seq<char>, i: int)
    ensures
        spec_parse_statements(toks, buf, i) matches StmtsParse::Found { consumed, .. } ==> 1
            <= consumed && i + consumed <= toks.len(),
    decreases toks.len() - i,
{
    if 0 <= i < toks.len() && toks[i].tag != Tag::RBrace && toks[i].tag == Tag::KReturn {
        lemma_parse_expression_consumed(toks, buf, i + 1, MAX_EXPRESSION_DEPTH as nat);
        match spec_parse_expression(toks, buf, i + 1, MAX_EXPRESSION_DEPTH as nat) {
            ExprParse::Found { consumed, .. } => {
                if i + 1 + consumed < toks.len() && toks[i + 1 + consumed].tag == Tag::Semicolon {
                    lemma_parse_statements_consumed(toks, buf, i + 2 + consumed);
                }
            },
            ExprParse::Fail(_) => {},
        }
    }
}

/// The mathematical program parser: a sequence of declarations, each a
/// type keyword, an identifier and a function, with stray end-of-input
/// tokens skipped between declarations.
pub open spec fn spec_parse_program(toks: Seq<TokenModel>, buf: Seq<char>, i: int) -> ProgParse
    decreases toks.len() - i,
    via spec_parse_program_dec
{
    if i < 0 || i >= toks.len() {
        ProgParse::Found { decls: Seq::empty() }
    } else if toks[i].tag == Tag::Eof {
        spec_parse_program(toks, buf, i + 1)
    } else if toks[i].tag == Tag::KInt || toks[i].tag == Tag::KVoid {
        if !(i + 1 < toks.len() && toks[i + 1].tag == Tag::Identifier) {
            ProgParse::Fail(ParseErr::Syntax { at: i + 1 })
        } else if !span_ok(toks[i + 1], buf) {
            ProgParse::Fail(ParseErr::Internal { at: i + 1 })
        } else {
            let name = buf.subrange(toks[i + 1].start, toks[i + 1].end);
            match spec_parse_function(toks, buf, i + 2) {
                FunParse::Found { next, stmts } => match spec_parse_program(toks, buf, next) {
                    ProgParse::Found { decls } => ProgParse::Found {
                        decls: seq![
                            DeclModel::Function(FunModel { name, statements: stmts }),
                        ] + decls,
                    },
                    ProgParse::Fail(e) => ProgParse::Fail(e),
                },
                FunParse::Fail(e) => ProgParse::Fail(e),
            }
        }
    } else {
        ProgParse::Fail(ParseErr::Syntax { at: i })
    }
}

#[via_fn]
proof fn spec_parse_program_dec(toks: Seq<TokenModel>, buf: Seq<char>, i: int) {
    if 0 <= i < toks.len() && toks[i].tag != Tag::Eof && (toks[i].tag == Tag::KInt || toks[i].tag
        == Tag::KVoid) && i + 1 < toks.len() && toks[i + 1].tag == Tag::Identifier && span_ok(
        toks[i + 1],
        buf,
    ) {
        if i + 2 < toks.len() && toks[i + 2].tag == Tag::LParen {
            let j = after_argument_list(toks, i + 3);
            if j < toks.len() && toks[j].tag == Tag::RParen && j + 1 < toks.len() && toks[j
                + 1].tag == Tag::LBrace {
                lemma_parse_statements_consumed(toks, buf, j + 2);
            }
        }
    }
}

/// A found function body ends strictly after the position it started at
/// and within the token sequence.
pub proof fn lemma_parse_function_next(toks: Seq<TokenModel>, buf: Seq<char>, i: int)
    ensures
        spec_parse_function(toks, buf, i) matches FunParse::Found { next, .. } ==> i < next
            && next <= toks.len(),
{
    if 0 <= i < toks.len() && toks[i].tag == Tag::LParen {
        lemma_parse_statements_consumed(toks, buf, after_argument_list(toks, i + 1) + 2);
    }
}

/// A found expression holds strictly fewer unary operators than the
/// tokens it consumed.
pub proof fn lemma_parse_expression_unary_count(
    toks: Seq<TokenModel>,
    buf: Seq<char>,
    i: int,
    depth: nat,
)
    ensures
        spec_parse_expression(toks, buf, i, depth) matches ExprParse::Found { consumed, expr }
            ==> expr_unary_count(expr) < consumed,
    decreases depth,
{
    if 0 <= i < toks.len() && depth > 0 {
        lemma_parse_expression_unary_count(toks, buf, i + 1, (depth - 1) as nat);
    }
}

/// A found statement list holds strictly fewer unary operators than the
/// tokens it consumed.
pub proof fn lemma_parse_statements_unary_count(toks: Seq<TokenModel>, buf: Seq<char>, i: int)
    ensures
        spec_parse_statements(toks, buf, i) matches StmtsParse::Found { consumed, stmts }
            ==> stmts_unary_count(stmts) < consumed,
    decreases toks.len() - i,
{
    if 0 <= i < toks.len() && toks[i].tag != Tag::RBrace && toks[i].tag == Tag::KReturn {
        lemma_parse_expression_consumed(toks, buf, i + 1, MAX_EXPRESSION_DEPTH as nat);
        lemma_parse_expression_unary_count(toks, buf, i + 1, MAX_EXPRESSION_DEPTH as nat);
        match spec_parse_expression(toks, buf, i + 1, MAX_EXPRESSION_DEPTH as nat) {
            ExprParse::Found { consumed, expr } => {
                if i + 1 + consumed < toks.len() && toks[i + 1 + consumed].tag == Tag::Semicolon {
                    lemma_parse_statements_unary_count(toks, buf, i + 2 + consumed);
                    match spec_parse_statements(toks, buf, i + 2 + consumed) {
                        StmtsParse::Found { consumed: c2, stmts } => {
                            assert((seq![StmtModel::Return(expr)] + stmts).drop_first()
                                =~= stmts);
                            assert((seq![StmtModel::Return(expr)] + stmts)[0]
                                == StmtModel::Return(expr));
                        },
                        StmtsParse::Fail(_) => {},
                    }
                }
            },
            ExprParse::Fail(_) => {},
        }
    }
}

/// Every declaration a found program holds carries strictly fewer unary
/// operators than there are tokens.
pub proof fn lemma_parse_program_unary_bound(toks: Seq<TokenModel>, buf: Seq<char>, i: int)
    requires
        0 <= i,
    ensures
        spec_parse_program(toks, buf, i) matches ProgParse::Found { decls } ==> forall|k: int|
            0 <= k < decls.len() ==> decl_unary_count(#[trigger] decls[k]) < toks.len(),
    decreases toks.len() - i,
{
    if i >= toks.len() {
    } else if toks[i].tag == Tag::Eof {
        lemma_parse_program_unary_bound(toks, buf, i + 1);
    } else if (toks[i].tag == Tag::KInt || toks[i].tag == Tag::KVoid) && i + 1 < toks.len()
        && toks[i + 1].tag == Tag::Identifier && span_ok(toks[i + 1], buf) {
        let name = buf.subrange(toks[i + 1].start, toks[i + 1].end);
        lemma_parse_function_next(toks, buf, i + 2);
        match spec_parse_function(toks, buf, i + 2) {
            FunParse::Found { next, stmts } => {
                if i + 2 < toks.len() && toks[i + 2].tag == Tag::LParen {
                    let j = after_argument_list(toks, i + 3);
                    lemma_parse_statements_consumed(toks, buf, j + 2);
                    lemma_parse_statements_unary_count(toks, buf, j + 2);
                }
                lemma_parse_program_unary_bound(toks, buf, next);
                match spec_parse_program(toks, buf, next) {
                    ProgParse::Found { decls } => {
                        let d0 = DeclModel::Function(FunModel { name, statements: stmts });
                        assert forall|k: int| 0 <= k < (seq![d0] + decls).len() implies
                            decl_unary_count(#[trigger] (seq![d0] + decls)[k])
                                < toks.len() by {
                            if k > 0 {
                                assert((seq![d0] + decls)[k] == decls[k - 1]);
                            }
                        }
                    },
                    ProgParse::Fail(_) => {},
                }
            },
            FunParse::Fail(_) => {},
        }
    }
}

/// A parse failure, as reported to callers. A syntax error is a token that
/// cannot extend the current grammar production; an internal error is a
/// violated invariant, such as a token whose span lies outside the source
/// buffer. Each carries a human-readable message and the offending source
/// span.
#[derive(Debug)]
pub enum ASTError {
    SyntaxError { message: String, range: Range<usize> },
    InternalError { message: String, range: Range<usize> },
}

/// The reported error has the kind the ghost parse outcome calls for, and
/// points at the span [`error_span`] gives for the offending token index.
pub open spec fn reflects_error(
    toks: Seq<TokenModel>,
    buf: Seq<char>,
    pe: ParseErr,
    e: ASTError,
) -> bool {
    match pe {
        ParseErr::Syntax { at } => e matches ASTError::SyntaxError { range, .. }
            && range.start == error_span(toks, buf, at).0 && range.end == error_span(
            toks,
            buf,
            at,
        ).1,
        ParseErr::Internal { at } => e matches ASTError::InternalError { range, .. }
            && range.start == error_span(toks, buf, at).0 && range.end == error_span(
            toks,
            buf,
            at,
        ).1,
    }
}

/// Ghost image of the parser: the source buffer and the token models.
pub struct ParserModel {
    pub buffer: Seq<char>,
    pub tokens: Seq<TokenModel>,
}

/// The parser: it owns the token sequence and the source buffer the token
/// spans index into (identifier and literal text is read from there).
pub struct ASTParser {
    buffer: String,
    tokens: Vec<Token>,
}

impl View for ASTParser {
    type V = ParserModel;

    closed spec fn view(&self) -> ParserModel {
        ParserModel { buffer: self.buffer@, tokens: tok_models(self.tokens@) }
    }
}

impl ASTParser {
    /// Makes a parser over the given source buffer and token sequence.
    pub fn new(buffer: String, tokens: Vec<Token>) -> (r: Self)
        ensures
            r@.buffer == buffer@,
            r@.tokens == tok_models(tokens@),
    {
        ASTParser { buffer, tokens }
    }

    /// The source span for an error at token index `at`.
    fn error_range(&self, at: usize, chars_len: usize) -> (r: Range<usize>)
        requires
            chars_len == self@.buffer.len(),
        ensures
            r.start == error_span(self@.tokens, self@.buffer, at as int).0,
            r.end == error_span(self@.tokens, self@.buffer, at as int).1,
    {
        if at < self.tokens.len() {
            let t = &self.tokens[at];
            t.range.start..t.range.end
        } else {
            chars_len..chars_len
        }
    }

    /// Parses one expression starting at token index `i`, as
    /// [`spec_parse_expression`] describes; on success returns the token
    /// index one past the expression and the tree built.
    fn parse_expression(&self, i: usize, depth: usize, chars_len: usize) -> (r: Result<
        (usize, Expression),
        ASTError,
    >)
        requires
            chars_len == self@.buffer.len(),
        ensures
            match spec_parse_expression(self@.tokens, self@.buffer, i as int, depth as nat) {
                ExprParse::Found { consumed, expr } => r matches Ok(p) && p.0 == i + consumed
                    && p.1@ == expr,
                ExprParse::Fail(pe) => r matches Err(e) && reflects_error(
                    self@.tokens,
                    self@.buffer,
                    pe,
                    e,
                ),
            },
        decreases depth,
    {
        let n = self.tokens.len();
        if i >= n {
            return Err(
                ASTError::SyntaxError {
                    message: "unexpected end of input while parsing an expression".to_owned(),
                    range: self.error_range(i, chars_len),
                },
            );
        }
        let tag = self.tokens[i].tag;
        match tag {
            Tag::NumberLiteral => {
                let t = &self.tokens[i];
                if t.range.start <= t.range.end && t.range.end <= chars_len {
                    let text = self.buffer.as_str().substring_char(t.range.start, t.range.end);
                    Ok((i + 1, Expression::Constant(ConstantValue::Int(text.to_owned()))))
                } else {
                    Err(
                        ASTError::InternalError {
                            message: "literal token span lies outside the source buffer".to_owned(),
                            range: self.error_range(i, chars_len),
                        },
                    )
                }
            },
            Tag::OpNegation | Tag::OpComplement => {
                if depth == 0 {
                    return Err(
                        ASTError::SyntaxError {
                            message: "expression nesting exceeds the supported depth".to_owned(),
                            range: self.error_range(i, chars_len),
                        },
                    );
                }
                let op = if tag == Tag::OpNegation {
                    UnaryExpressionType::Negation
                } else {
                    UnaryExpressionType::Complement
                };
                match self.parse_expression(i + 1, depth - 1, chars_len) {
                    Ok((next, sub)) => Ok((next, Expression::Unary(op, Box::new(sub)))),
                    Err(e) => Err(e),
                }
            },
            Tag::LParen => {
                if depth == 0 {
                    return Err(
                        ASTError::SyntaxError {
                            message: "expression nesting exceeds the supported depth".to_owned(),
                            range: self.error_range(i, chars_len),
                        },
                    );
                }
                match self.parse_expression(i + 1, depth - 1, chars_len) {
                    Ok((next, e)) => {
                        if next < n && self.tokens[next].tag == Tag::RParen {
                            Ok((next + 1, e))
                        } else {
                            Err(
                                ASTError::SyntaxError {
                                    message: "expected `)` after the parenthesized expression"
                                        .to_owned(),
                                    range: self.error_range(next, chars_len),
                                },
                            )
                        }
                    },
                    Err(e) => Err(e),
                }
            },
            _ => Err(
                ASTError::SyntaxError {
                    message: "unexpected token in an expression".to_owned(),
                    range: self.error_range(i, chars_len),
                },
            ),
        }
    }

    /// Parses a function's argument list and body, starting at the
    /// expected `(`, as [`spec_parse_function`] describes; on success
    /// returns the token index one past the closing brace and the body.
    #[verifier::loop_isolation(false)]
    fn parse_function(&self, start: usize, chars_len: usize) -> (r: Result<
        (usize, Vec<Statement>),
        ASTError,
    >)
        requires
            chars_len == self@.buffer.len(),
        ensures
            match spec_parse_function(self@.tokens, self@.buffer, start as int) {
                FunParse::Found { next, stmts } => r matches Ok(p) && p.0 == next && stmt_models(
                    p.1@,
                ) == stmts,
                FunParse::Fail(pe) => r matches Err(e) && reflects_error(
                    self@.tokens,
                    self@.buffer,
                    pe,
                    e,
                ),
            },
    {
        let ghost toks = self@.tokens;
        let ghost buf = self@.buffer;
        let n = self.tokens.len();
        if !(start < n && self.tokens[start].tag == Tag::LParen) {
            return Err(
                ASTError::SyntaxError {
                    message: "expected an argument list after the declaration".to_owned(),
                    range: self.error_range(start, chars_len),
                },
            );
        }
        let mut j = start + 1;
        if j < n && self.tokens[j].tag == Tag::KVoid {
            j += 1;
        }
        proof {
            assert(j == after_argument_list(toks, start + 1 as int));
        }
        if !(j < n && self.tokens[j].tag == Tag::RParen) {
            return Err(
                ASTError::SyntaxError {
                    message: "unexpected token in the argument list".to_owned(),
                    range: self.error_range(j, chars_len),
                },
            );
        }
        if !(j + 1 < n && self.tokens[j + 1].tag == Tag::LBrace) {
            return Err(
                ASTError::SyntaxError {
                    message: "expected `{` after the argument list".to_owned(),
                    range: self.error_range(j + 1, chars_len),
                },
            );
        }
        let ghost body_start = j + 2 as int;
        let mut stmts: Vec<Statement> = Vec::new();
        let mut i = j + 2;
        loop
            invariant
                body_start <= i <= n,
                n == toks.len(),
                toks == self@.tokens,
                buf == self@.buffer,
                chars_len == buf.len(),
                match spec_parse_statements(toks, buf, i as int) {
                    StmtsParse::Found { consumed, stmts: rest } => spec_parse_statements(
                        toks,
                        buf,
                        body_start,
                    ) == (StmtsParse::Found {
                        consumed: (i - body_start + consumed) as nat,
                        stmts: stmt_models(stmts@) + rest,
                    }),
                    StmtsParse::Fail(e) => spec_parse_statements(toks, buf, body_start)
                        == StmtsParse::Fail(e),
                },
            decreases n - i,
        {
            if i >= n {
                return Err(
                    ASTError::SyntaxError {
                        message: "unexpected end of input while parsing the function body"
                            .to_owned(),
                        range: self.error_range(i, chars_len),
                    },
                );
            }
            let tag = self.tokens[i].tag;
            if tag == Tag::RBrace {
                proof {
                    assert(stmt_models(stmts@) + Seq::<StmtModel>::empty() =~= stmt_models(
                        stmts@,
                    ));
                }
                return Ok((i + 1, stmts));
            } else if tag == Tag::KReturn {
                match self.parse_expression(i + 1, MAX_EXPRESSION_DEPTH, chars_len) {
                    Err(e) => {
                        return Err(e);
                    },
                    Ok((next, expr)) => {
                        proof {
                            lemma_parse_expression_consumed(
                                toks,
                                buf,
                                i + 1 as int,
                                MAX_EXPRESSION_DEPTH as nat,
                            );
                        }
                        if next < n {
                            if self.tokens[next].tag == Tag::Semicolon {
                                let ghost prev = stmt_models(stmts@);
                                let ghost em = expr@;
                                stmts.push(Statement::Return(expr));
                                proof {
                                    assert(stmts@.last() == Statement::Return(expr));
                                    assert(stmt_models(stmts@) =~= prev + seq![
                                        StmtModel::Return(em),
                                    ]);
                                    assert forall|rest: Seq<StmtModel>|
                                        (prev + seq![StmtModel::Return(em)]) + rest =~= prev + (
                                        seq![StmtModel::Return(em)] + rest) by {}
                                }
                                i = next + 1;
                            } else {
                                return Err(
                                    ASTError::SyntaxError {
                                        message: "expected `;` after the return expression"
                                            .to_owned(),
                                        range: self.error_range(next, chars_len),
                                    },
                                );
                            }
                        } else {
                            return Err(
                                ASTError::SyntaxError {
                                    message: "unexpected end of input after the return expression"
                                        .to_owned(),
                                    range: self.error_range(n, chars_len),
                                },
                            );
                        }
                    },
                }
            } else {
                return Err(
                    ASTError::SyntaxError {
                        message: "unexpected token in the function body".to_owned(),
                        range: self.error_range(i, chars_len),
                    },
                );
            }
        }
    }

    /// Parses the whole token sequence into a program, as
    /// [`spec_parse_program`] describes: on success the tree built is
    /// pinned exactly; on failure so are the error's kind and source span.
    pub fn parse(&mut self) -> (r: Result<Program, ASTError>)
        ensures
            final(self)@ == old(self)@,
            match spec_parse_program(old(self)@.tokens, old(self)@.buffer, 0) {
                ProgParse::Found { decls } => r matches Ok(p) && program_model(p@) == decls,
                ProgParse::Fail(pe) => r matches Err(e) && reflects_error(
                    old(self)@.tokens,
                    old(self)@.buffer,
                    pe,
                    e,
                ),
            },
    {
        let ghost toks = self@.tokens;
        let ghost buf = self@.buffer;
        let chars_len = self.buffer.as_str().unicode_len();
        let n = self.tokens.len();
        let mut decls: Vec<Declaration> = Vec::new();
        let mut i: usize = 0;
        loop
            invariant
                i <= n,
                n == toks.len(),
                toks == self@.tokens,
                buf == self@.buffer,
                chars_len == buf.len(),
                match spec_parse_program(toks, buf, i as int) {
                    ProgParse::Found { decls: rest } => spec_parse_program(toks, buf, 0)
                        == (ProgParse::Found { decls: program_model(decls@) + rest }),
                    ProgParse::Fail(e) => spec_parse_program(toks, buf, 0) == ProgParse::Fail(e),
                },
            decreases n - i,
        {
            if i >= n {
                proof {
                    assert(program_model(decls@) + Seq::<DeclModel>::empty() =~= program_model(
                        decls@,
                    ));
                }
                return Ok(decls);
            }
            let tag = self.tokens[i].tag;
            if tag == Tag::Eof {
                i += 1;
            } else if tag == Tag::KInt || tag == Tag::KVoid {
                if !(i + 1 < n && self.tokens[i + 1].tag == Tag::Identifier) {
                    return Err(
                        ASTError::SyntaxError {
                            message: "expected a declaration identifier".to_owned(),
                            range: self.error_range(i + 1, chars_len),
                        },
                    );
                }
                let t1 = &self.tokens[i + 1];
                if !(t1.range.start <= t1.range.end && t1.range.end <= chars_len) {
                    return Err(
                        ASTError::InternalError {
                            message: "identifier token span lies outside the source buffer"
                                .to_owned(),
                            range: self.error_range(i + 1, chars_len),
                        },
                    );
                }
                let name = self.buffer.as_str().substring_char(
                    t1.range.start,
                    t1.range.end,
                ).to_owned();
                match self.parse_function(i + 2, chars_len) {
                    Err(e) => {
                        return Err(e);
                    },
                    Ok((next, statements)) => {
                        proof {
                            lemma_parse_function_next(toks, buf, i + 2 as int);
                        }
                        let ghost prev = program_model(decls@);
                        let ghost nm = name@;
                        let ghost sm = stmt_models(statements@);
                        decls.push(Declaration::Function(FunctionDefinition { name, statements }));
                        proof {
                            assert(program_model(decls@) =~= prev + seq![
                                DeclModel::Function(FunModel { name: nm, statements: sm }),
                            ]);
                            assert forall|rest: Seq<DeclModel>|
                                (prev + seq![DeclModel::Function(FunModel { name: nm, statements: sm })])
                                    + rest =~= prev + (seq![
                                    DeclModel::Function(FunModel { name: nm, statements: sm }),
                                ] + rest) by {}
                        }
                        i = next;
                    },
                }
            } else {
                return Err(
                    ASTError::SyntaxError {
                        message: "unexpected token at the top level: expected a declaration"
                            .to_owned(),
                        range: self.error_range(i, chars_len),
                    },
                );
            }
        }
    }
}

} // verus!
