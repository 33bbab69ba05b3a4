//! The staged pipeline over the four translation stages: scan, parse,
//! lower, select, emit. Each stage can be run from source on its own, so
//! a surrounding tool can stop after any stage and inspect its output,
//! and [`compile`] runs them all.
//!
//! Every function here is total on any source text a `&str` can hold and
//! is specified against the mathematical pipeline, composed from the
//! stage models: [`spec_tokenize`], `spec_parse_program`,
//! `spec_lower_program`, `spec_select_function` and `fun_text`.

use vstd::prelude::*;
use vstd::string::*;
use core::ops::Range;
use crate::assembly::agen::{codegen, fun_text};
use crate::assembly::symbols::AsmFunModel;
use crate::assembly::transpile::{
    instrs_vars, spec_select_function, AsmError, STranspiler, MAX_STACK_SLOTS,
};
use crate::ast::parser::{
    error_span, spec_parse_program, tok_models, ASTError, ASTParser, ParseErr, ProgParse,
};
use crate::ast::symbols::DeclModel;
use crate::lex::lexer::{lemma_scan_bounds, scan, Lexer, Tag, Token, TokenModel};
use crate::zil::symbols::IrFunModel;
use crate::zil::transpile::spec_lower_program;
use crate::zil::{symbols as zil_symbols, transpile as zil_transpile};
use crate::ast::parser::lemma_parse_program_unary_bound;

verus! {

/// A failed compilation: the stage taxonomy of the pipeline. A lexical
/// error is an unrecognized character; a syntax error is a token that
/// cannot extend the grammar; an internal error is a violated invariant
/// of the pipeline or an unsupported program shape, distinguished from
/// user-facing syntax errors. Each carries the source span it points to.
#[derive(Debug)]
pub enum CompileError {
    LexError { range: Range<usize> },
    SyntaxError { message: String, range: Range<usize> },
    InternalError { message: String, range: Range<usize> },
}

/// Ghost image of a failed compilation: its kind and source span.
pub enum StageErr {
    Lex { start: int, end: int },
    Syntax { start: int, end: int },
    Internal { start: int, end: int },
}

/// The reported error has the kind and source span the ghost outcome
/// calls for.
pub open spec fn reflects_stage_err(e: CompileError, se: StageErr) -> bool {
    match se {
        StageErr::Lex { start, end } => e matches CompileError::LexError { range }
            && range.start == start && range.end == end,
        StageErr::Syntax { start, end } => e matches CompileError::SyntaxError { range, .. }
            && range.start == start && range.end == end,
        StageErr::Internal { start, end } => e matches CompileError::InternalError { range, .. }
            && range.start == start && range.end == end,
    }
}

/// Ghost outcome of scanning a whole buffer: the token models up to the
/// end of input, or the span of the first invalid character.
pub enum LexOutcome {
    Toks(Seq<TokenModel>),
    Invalid { start: int, end: int },
}

/// The mathematical scan of the whole buffer from `pos`: tokens are
/// collected until the end of input; an invalid character stops the scan
/// with its span.
pub open spec fn spec_tokenize(s: Seq<char>, pos: int) -> LexOutcome
    decreases s.len() - pos,
    via spec_tokenize_dec
{
    let sc = scan(s, pos);
    if sc.tag == Tag::Eof {
        LexOutcome::Toks(Seq::empty())
    } else if sc.tag == Tag::Invalid {
        LexOutcome::Invalid { start: sc.start, end: sc.end }
    } else {
        match spec_tokenize(s, sc.next) {
            LexOutcome::Toks(rest) => LexOutcome::Toks(
                seq![TokenModel { tag: sc.tag, start: sc.start, end: sc.end }] + rest,
            ),
            LexOutcome::Invalid { start, end } => LexOutcome::Invalid { start, end },
        }
    }
}

#[via_fn]
proof fn spec_tokenize_dec(s: Seq<char>, pos: int) {
    if 0 <= pos <= s.len() {
        lemma_scan_bounds(s, pos);
    }
}

/// The tokens of a buffer, or the lexical error that stops the scan.
pub open spec fn spec_tokens_of(s: Seq<char>) -> Result<Seq<TokenModel>, StageErr> {
    match spec_tokenize(s, 0) {
        LexOutcome::Toks(ts) => Ok(ts),
        LexOutcome::Invalid { start, end } => Err(StageErr::Lex { start, end }),
    }
}

/// The stage error for a ghost parse failure.
pub open spec fn err_of_parse(toks: Seq<TokenModel>, buf: Seq<char>, pe: ParseErr) -> StageErr {
    match pe {
        ParseErr::Syntax { at } => StageErr::Syntax {
            start: error_span(toks, buf, at).0,
            end: error_span(toks, buf, at).1,
        },
        ParseErr::Internal { at } => StageErr::Internal {
            start: error_span(toks, buf, at).0,
            end: error_span(toks, buf, at).1,
        },
    }
}

/// The abstract syntax tree of a buffer, or the first error.
pub open spec fn spec_ast_of(s: Seq<char>) -> Result<Seq<DeclModel>, StageErr> {
    match spec_tokens_of(s) {
        Err(e) => Err(e),
        Ok(ts) => match spec_parse_program(ts, s, 0) {
            ProgParse::Found { decls } => Ok(decls),
            ProgParse::Fail(pe) => Err(err_of_parse(ts, s, pe)),
        },
    }
}

/// The intermediate representation of a buffer, or the first error.
pub open spec fn spec_ir_of(s: Seq<char>) -> Result<Seq<IrFunModel>, StageErr> {
    match spec_ast_of(s) {
        Err(e) => Err(e),
        Ok(decls) => Ok(spec_lower_program(decls)),
    }
}

/// The selected assembly of a buffer, or the first error. Selection
/// demands exactly one function and a frame within the slot limit;
/// anything else is an internal error.
pub open spec fn spec_asm_of(s: Seq<char>) -> Result<AsmFunModel, StageErr> {
    match spec_ir_of(s) {
        Err(e) => Err(e),
        Ok(ir) => if ir.len() != 1 {
            Err(StageErr::Internal { start: 0, end: 0 })
        } else if instrs_vars(ir[0].instructions).len() > MAX_STACK_SLOTS {
            Err(StageErr::Internal { start: 0, end: 0 })
        } else {
            Ok(spec_select_function(ir[0]))
        },
    }
}

/// The emitted assembly text of a buffer, or the first error.
pub open spec fn spec_output_of(s: Seq<char>) -> Result<Seq<char>, StageErr> {
    match spec_asm_of(s) {
        Err(e) => Err(e),
        Ok(f) => Ok(fun_text(f)),
    }
}

/// Runs the lexer over the whole source: the token sequence up to the
/// end of input, or the lexical error at the first invalid character.
pub fn tokenize(source: &str) -> (r: Result<Vec<Token>, CompileError>)
    requires
        source@.len() < usize::MAX,
    ensures
        match spec_tokens_of(source@) {
            Ok(ts) => r matches Ok(v) && tok_models(v@) == ts,
            Err(se) => r matches Err(e) && reflects_stage_err(e, se),
        },
{
    let mut lexer = Lexer::load_test_str(source);
    let mut tokens: Vec<Token> = Vec::new();
    loop
        invariant
            lexer@.buffer == source@,
            source@.len() < usize::MAX,
            lexer.ready(),
            0 <= lexer@.index,
            match spec_tokenize(source@, lexer@.index) {
                LexOutcome::Toks(rest) => spec_tokenize(source@, 0) == LexOutcome::Toks(
                    tok_models(tokens@) + rest,
                ),
                LexOutcome::Invalid { start, end } => spec_tokenize(source@, 0)
                    == (LexOutcome::Invalid { start, end }),
            },
        decreases source@.len() - lexer@.index,
    {
        proof {
            lemma_scan_bounds(source@, lexer@.index);
        }
        let ghost pre = tok_models(tokens@);
        let t = lexer.next();
        if t.tag == Tag::Eof {
            proof {
                assert(tok_models(tokens@) + Seq::<TokenModel>::empty() =~= tok_models(
                    tokens@,
                ));
            }
            return Ok(tokens);
        }
        if t.tag == Tag::Invalid {
            return Err(CompileError::LexError { range: t.range });
        }
        let ghost tm = t@;
        tokens.push(t);
        proof {
            assert(tok_models(tokens@) =~= pre + seq![tm]);
            match spec_tokenize(source@, lexer@.index) {
                LexOutcome::Toks(rest) => {
                    assert(pre + (seq![tm] + rest) =~= (pre + seq![tm]) + rest);
                },
                LexOutcome::Invalid { .. } => {},
            }
        }
    }
}

/// Runs the lexer and parser: the abstract syntax tree, or the first
/// error.
pub fn parse_source(source: &str) -> (r: Result<crate::ast::symbols::Program, CompileError>)
    requires
        source@.len() < usize::MAX,
    ensures
        match spec_ast_of(source@) {
            Ok(decls) => r matches Ok(p) && crate::ast::symbols::program_model(p@) == decls,
            Err(se) => r matches Err(e) && reflects_stage_err(e, se),
        },
{
    let tokens = match tokenize(source) {
        Ok(ts) => ts,
        Err(e) => {
            return Err(e);
        },
    };
    let mut parser = ASTParser::new(source.to_owned(), tokens);
    match parser.parse() {
        Ok(program) => Ok(program),
        Err(ASTError::SyntaxError { message, range }) => Err(
            CompileError::SyntaxError { message, range },
        ),
        Err(ASTError::InternalError { message, range }) => Err(
            CompileError::InternalError { message, range },
        ),
    }
}

/// Runs the lexer, parser and lowering: the intermediate representation,
/// or the first error.
pub fn lower_source(source: &str) -> (r: Result<zil_symbols::Program, CompileError>)
    requires
        source@.len() < usize::MAX,
    ensures
        match spec_ir_of(source@) {
            Ok(ir) => r matches Ok(p) && zil_symbols::ir_program_model(p@) == ir,
            Err(se) => r matches Err(e) && reflects_stage_err(e, se),
        },
{
    let tokens = match tokenize(source) {
        Ok(ts) => ts,
        Err(e) => {
            return Err(e);
        },
    };
    let ghost ts = tok_models(tokens@);
    let ntok = tokens.len();
    let mut parser = ASTParser::new(source.to_owned(), tokens);
    let ast = match parser.parse() {
        Ok(program) => program,
        Err(ASTError::SyntaxError { message, range }) => {
            return Err(CompileError::SyntaxError { message, range });
        },
        Err(ASTError::InternalError { message, range }) => {
            return Err(CompileError::InternalError { message, range });
        },
    };
    proof {
        lemma_parse_program_unary_bound(ts, source@, 0);
    }
    Ok(zil_transpile::parse(ast))
}

/// Runs the lexer, parser, lowering and instruction selection: the
/// assembly instruction forms, or the first error.
pub fn select_source(source: &str) -> (r: Result<
    crate::assembly::symbols::Program,
    CompileError,
>)
    requires
        source@.len() < usize::MAX,
    ensures
        match spec_asm_of(source@) {
            Ok(f) => r matches Ok(p) && crate::assembly::symbols::asm_program_model(p@) == seq![
                f,
            ],
            Err(se) => r matches Err(e) && reflects_stage_err(e, se),
        },
{
    let ir = match lower_source(source) {
        Ok(ir) => ir,
        Err(e) => {
            return Err(e);
        },
    };
    let mut transpiler = STranspiler::new();
    match transpiler.parse(ir) {
        Ok(selected) => Ok(selected),
        Err(AsmError::FunctionCountNotOne) => Err(
            CompileError::InternalError {
                message: "the program does not hold exactly one function".to_owned(),
                range: 0..0,
            },
        ),
        Err(AsmError::FrameTooLarge) => Err(
            CompileError::InternalError {
                message: "the function uses more temporaries than a frame may hold".to_owned(),
                range: 0..0,
            },
        ),
    }
}

/// Runs the whole pipeline: the emitted assembly text, or the first
/// error, exactly as the mathematical pipeline [`spec_output_of`]
/// describes.
pub fn compile(source: &str) -> (r: Result<String, CompileError>)
    requires
        source@.len() < usize::MAX,
    ensures
        match spec_output_of(source@) {
            Ok(text) => r matches Ok(s) && s@ == text,
            Err(se) => r matches Err(e) && reflects_stage_err(e, se),
        },
{
    let selected = match select_source(source) {
        Ok(selected) => selected,
        Err(e) => {
            return Err(e);
        },
    };
    match codegen(&selected) {
        Ok(text) => Ok(text),
        Err(_) => {
            proof {
                assert(false);
            }
            Err(
                CompileError::InternalError {
                    message: "the program does not hold exactly one function".to_owned(),
                    range: 0..0,
                },
            )
        },
    }
}

} // verus!
