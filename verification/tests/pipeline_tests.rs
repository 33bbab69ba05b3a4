//! Whole-pipeline behaviour: the staged outputs for the round-trip
//! scenarios, the lowering shape of unary chains, the fixup and
//! frame-size invariants over programs of varying depth, and the error
//! taxonomy.

use zcc::assembly::symbols::{Instruction as AsmInstruction, Opd, Reg};
use zcc::assembly::transpile::{AsmError, STranspiler};
use zcc::assembly::agen::codegen;
use zcc::assembly::symbols::Function as AsmFunction;
use zcc::ast::symbols::{ConstantValue, Declaration, Expression, Statement};
use zcc::driver::{compile, lower_source, parse_source, select_source, tokenize, CompileError};
use zcc::lex::lexer::Tag;
use zcc::zil::symbols::{Construct, Instruction as IrInstruction, Value};
use zcc::zil::transpile::parse as lower;

fn unary_chain_source(name: &str, depth: usize) -> String {
    let mut s = String::new();
    s.push_str("int ");
    s.push_str(name);
    s.push_str("(void) { return ");
    for _ in 0..depth {
        s.push('~');
    }
    s.push_str("5; }");
    s
}

/// Round trip scenario: tokens, tree, intermediate representation and
/// assembly text for `int main(void) { return 2; }`.
#[test]
fn test_round_trip_return_2() {
    let source = "int main(void) { return 2; }";

    let tokens = tokenize(source).expect("lexing should succeed");
    let tags: Vec<Tag> = tokens.iter().map(|t| t.tag).collect();
    assert_eq!(
        tags,
        vec![
            Tag::KInt,
            Tag::Identifier,
            Tag::LParen,
            Tag::KVoid,
            Tag::RParen,
            Tag::LBrace,
            Tag::KReturn,
            Tag::NumberLiteral,
            Tag::Semicolon,
            Tag::RBrace,
        ]
    );
    assert_eq!(&source[tokens[1].range.clone()], "main");
    assert_eq!(&source[tokens[7].range.clone()], "2");

    let ast = parse_source(source).expect("parsing should succeed");
    assert_eq!(ast.len(), 1);
    match &ast[0] {
        Declaration::Function(d) => {
            assert_eq!(d.name, "main");
            assert_eq!(d.statements.len(), 1);
            match &d.statements[0] {
                Statement::Return(Expression::Constant(ConstantValue::Int(v))) => {
                    assert_eq!(v, "2");
                }
                other => panic!("unexpected statement {:?}", other),
            }
        }
    }

    let ir = lower_source(source).expect("lowering should succeed");
    assert_eq!(ir.len(), 1);
    match &ir[0] {
        Construct::Function(f) => {
            assert_eq!(f.identifier, "main");
            assert_eq!(f.instructions.len(), 1);
            match &f.instructions[0] {
                IrInstruction::Return(Value::Constant(v)) => assert_eq!(v, "2"),
                other => panic!("unexpected instruction {:?}", other),
            }
        }
    }

    let selected = select_source(source).expect("selection should succeed");
    assert_eq!(selected.len(), 1);
    let instrs = &selected[0].instructions;
    assert_eq!(instrs.len(), 3);
    assert!(matches!(instrs[0], AsmInstruction::AllocateStack(0)));
    match &instrs[1] {
        AsmInstruction::Mov(Opd::Imm(v), Opd::Reg(Reg::AX)) => assert_eq!(v, "2"),
        other => panic!("unexpected instruction {:?}", other),
    }
    assert!(matches!(instrs[2], AsmInstruction::Ret));

    let text = compile(source).expect("compilation should succeed");
    assert_eq!(
        text,
        "\t.globl _main\n_main:\n\tpushq\t%rbp\n\tmovq\t%rsp, %rbp\n\
         \tsubq\t$0, %rsp\n\
         \tmovl\t$2, %eax\n\
         \tmovq\t%rbp, %rsp\n\tpopq\t%rbp\n\tret\n"
    );
}

/// Scenario: a `return ~-2;` body lowers to two unary instructions over
/// fresh temporaries and allocates eight bytes of stack at offsets -4
/// and -8.
#[test]
fn test_round_trip_complement_negate() {
    let source = "int f(void)\n{\nreturn ~-2;\n}";

    let ir = lower_source(source).expect("lowering should succeed");
    assert_eq!(ir.len(), 1);
    match &ir[0] {
        Construct::Function(f) => {
            assert_eq!(f.identifier, "f");
            assert_eq!(f.instructions.len(), 3);
            match &f.instructions[0] {
                IrInstruction::Unary(d) => {
                    assert!(matches!(
                        d.operator,
                        zcc::zil::symbols::UnaryInstructionOperator::Negate
                    ));
                    assert_eq!(d.source, Value::Constant("2".to_string()));
                    assert_eq!(d.destination, Value::Variable("fn.f.0".to_string()));
                }
                other => panic!("unexpected instruction {:?}", other),
            }
            match &f.instructions[1] {
                IrInstruction::Unary(d) => {
                    assert!(matches!(
                        d.operator,
                        zcc::zil::symbols::UnaryInstructionOperator::Complement
                    ));
                    assert_eq!(d.source, Value::Variable("fn.f.0".to_string()));
                    assert_eq!(d.destination, Value::Variable("fn.f.1".to_string()));
                }
                other => panic!("unexpected instruction {:?}", other),
            }
            match &f.instructions[2] {
                IrInstruction::Return(v) => {
                    assert_eq!(*v, Value::Variable("fn.f.1".to_string()));
                }
                other => panic!("unexpected instruction {:?}", other),
            }
        }
    }

    let selected = select_source(source).expect("selection should succeed");
    let instrs = &selected[0].instructions;
    assert!(matches!(instrs[0], AsmInstruction::AllocateStack(8)));
    assert!(matches!(instrs[1], AsmInstruction::Mov(Opd::Imm(_), Opd::Stack(-4))));
    let mut offsets: Vec<i32> = Vec::new();
    for i in instrs.iter() {
        if let AsmInstruction::Unary(_, Opd::Stack(off)) = i {
            offsets.push(*off);
        }
    }
    assert_eq!(offsets, vec![-4, -8]);
}

/// Lowering a unary chain of depth `n` yields exactly `n` unary
/// instructions and one return, with the innermost source equal to the
/// literal.
#[test]
fn test_lowering_chain_shape() {
    for depth in [0usize, 1, 3, 9] {
        let source = unary_chain_source("main", depth);
        let ir = lower_source(&source).expect("lowering should succeed");
        match &ir[0] {
            Construct::Function(f) => {
                assert_eq!(f.instructions.len(), depth + 1);
                for k in 0..depth {
                    assert!(matches!(f.instructions[k], IrInstruction::Unary(_)));
                }
                assert!(matches!(f.instructions[depth], IrInstruction::Return(_)));
                if depth > 0 {
                    match &f.instructions[0] {
                        IrInstruction::Unary(d) => {
                            assert_eq!(d.source, Value::Constant("5".to_string()));
                        }
                        other => panic!("unexpected instruction {:?}", other),
                    }
                }
            }
        }
    }
}

/// No selected move instruction has two stack operands, over nested
/// unary programs of varying depth.
#[test]
fn test_no_stack_to_stack_moves() {
    for depth in 0..40usize {
        let source = unary_chain_source("main", depth);
        let selected = select_source(&source).expect("selection should succeed");
        for i in selected[0].instructions.iter() {
            if let AsmInstruction::Mov(src, dst) = i {
                assert!(
                    !(matches!(src, Opd::Stack(_)) && matches!(dst, Opd::Stack(_))),
                    "stack-to-stack move at depth {}",
                    depth
                );
            }
        }
    }
}

/// The recorded frame size is four bytes per distinct temporary.
#[test]
fn test_frame_size_is_four_bytes_per_temporary() {
    for depth in [0usize, 1, 2, 7, 31, 40] {
        let source = unary_chain_source("main", depth);
        let selected = select_source(&source).expect("selection should succeed");
        match selected[0].instructions[0] {
            AsmInstruction::AllocateStack(n) => assert_eq!(n, 4 * depth as i32),
            ref other => panic!("expected a stack allocation, got {:?}", other),
        }
    }
}

/// A second top-level function is rejected with an internal error,
/// distinguishable from a syntax error, rather than silently discarded.
#[test]
fn test_second_function_is_distinct_error() {
    let source = "int custom(void) {\nreturn 500;\n}\nvoid two() {\nreturn 5;\n}";

    let ir = lower_source(source).expect("lowering should succeed");
    assert_eq!(ir.len(), 2);

    let mut transpiler = STranspiler::new();
    let direct = transpiler.parse(ir);
    assert!(matches!(direct, Err(AsmError::FunctionCountNotOne)));

    match select_source(source) {
        Err(CompileError::InternalError { .. }) => {}
        other => panic!("expected an internal error, got {:?}", other),
    }
}

/// An unrecognized character is a lexical error carrying its span.
#[test]
fn test_invalid_character_is_lex_error() {
    match compile("int @ void") {
        Err(CompileError::LexError { range }) => assert_eq!(range, 4..5),
        other => panic!("expected a lexical error, got {:?}", other),
    }
}

/// A missing `;` surfaces as a syntax error from the whole pipeline.
#[test]
fn test_missing_semicolon_is_syntax_error() {
    match compile("int main(void) { return 2 }") {
        Err(CompileError::SyntaxError { range, .. }) => assert_eq!(range, 26..27),
        other => panic!("expected a syntax error, got {:?}", other),
    }
}

/// An empty source holds no function, which selection rejects.
#[test]
fn test_empty_source_is_internal_error() {
    match compile("") {
        Err(CompileError::InternalError { .. }) => {}
        other => panic!("expected an internal error, got {:?}", other),
    }
}

/// The emitter demands exactly one function, mirroring the selector.
#[test]
fn test_codegen_function_count() {
    let empty: Vec<AsmFunction> = Vec::new();
    assert!(matches!(codegen(&empty), Err(AsmError::FunctionCountNotOne)));

    let one = vec![AsmFunction {
        identifier: "main".to_string(),
        instructions: vec![
            AsmInstruction::AllocateStack(0),
            AsmInstruction::Mov(Opd::Imm("2".to_string()), Opd::Reg(Reg::AX)),
            AsmInstruction::Ret,
        ],
    }];
    let text = codegen(&one).expect("one function should emit");
    assert_eq!(
        text,
        "\t.globl _main\n_main:\n\tpushq\t%rbp\n\tmovq\t%rsp, %rbp\n\
         \tsubq\t$0, %rsp\n\
         \tmovl\t$2, %eax\n\
         \tmovq\t%rbp, %rsp\n\tpopq\t%rbp\n\tret\n"
    );
}

/// Lowering applied directly to a hand-built tree.
#[test]
fn test_lower_direct() {
    let ast = vec![Declaration::Function(zcc::ast::symbols::FunctionDefinition {
        name: "g".to_string(),
        statements: vec![Statement::Return(Expression::Unary(
            zcc::ast::symbols::UnaryExpressionType::Negation,
            Box::new(Expression::Constant(ConstantValue::Int("7".to_string()))),
        ))],
    })];
    let ir = lower(ast);
    assert_eq!(ir.len(), 1);
    match &ir[0] {
        Construct::Function(f) => {
            assert_eq!(f.identifier, "g");
            assert_eq!(f.instructions.len(), 2);
            match &f.instructions[0] {
                IrInstruction::Unary(d) => {
                    assert_eq!(d.destination, Value::Variable("fn.g.0".to_string()));
                }
                other => panic!("unexpected instruction {:?}", other),
            }
        }
    }
}

/// Decimal spellings used in temporary names and operand text.
#[test]
fn test_decimal_spellings() {
    assert_eq!(zcc::decimal::u64_dec_string(0), "0");
    assert_eq!(zcc::decimal::u64_dec_string(7), "7");
    assert_eq!(zcc::decimal::u64_dec_string(10), "10");
    assert_eq!(zcc::decimal::u64_dec_string(1234567890), "1234567890");
    assert_eq!(zcc::decimal::i32_dec_string(0), "0");
    assert_eq!(zcc::decimal::i32_dec_string(-4), "-4");
    assert_eq!(zcc::decimal::i32_dec_string(2147483647), "2147483647");
    assert_eq!(zcc::decimal::i32_dec_string(-2147483648), "-2147483648");
}

/// The parser accepts nesting up to its depth bound and rejects one
/// level beyond it cleanly, as a syntax error.
#[test]
fn test_expression_depth_limit() {
    let deepest = unary_chain_source("main", 1000);
    assert!(compile(&deepest).is_ok());

    let too_deep = unary_chain_source("main", 1001);
    match compile(&too_deep) {
        Err(CompileError::SyntaxError { .. }) => {}
        other => panic!("expected a syntax error, got {:?}", other),
    }
}

/// A whitespace-only source lexes to no tokens at all.
#[test]
fn test_whitespace_only_source() {
    let tokens = tokenize(" \n\t\r ").expect("lexing should succeed");
    assert!(tokens.is_empty());
}

/// The argument list accepts only emptiness or a single `void`.
#[test]
fn test_argument_list_rejects_repeated_void() {
    assert!(compile("int f(void) { return 1; }").is_ok());
    assert!(compile("int f() { return 1; }").is_ok());
    match compile("int f(void void) { return 1; }") {
        Err(CompileError::SyntaxError { range, .. }) => assert_eq!(range, 11..15),
        other => panic!("expected a syntax error, got {:?}", other),
    }
}
