//! Scanner behaviour on whole inputs: token kinds, spans, keywords,
//! invalid characters, and re-lexing of token substrings.

use zcc::lex::lexer::{Lexer, Tag, Token};

#[test]
fn test_return_2() {
    let mut lexer = Lexer::load_test_str("int main(void) {\n  return 2;\n}\n");

    assert_eq!(lexer.next(), Token { tag: Tag::KInt, range: 0..3 });
    assert_eq!(lexer.next(), Token { tag: Tag::Identifier, range: 4..8 });
    assert_eq!(lexer.next(), Token { tag: Tag::LParen, range: 8..9 });
    assert_eq!(lexer.next(), Token { tag: Tag::KVoid, range: 9..13 });
    assert_eq!(lexer.next(), Token { tag: Tag::RParen, range: 13..14 });
    assert_eq!(lexer.next(), Token { tag: Tag::LBrace, range: 15..16 });
    assert_eq!(lexer.next(), Token { tag: Tag::KReturn, range: 19..25 });
    assert_eq!(lexer.next(), Token { tag: Tag::NumberLiteral, range: 26..27 });
    assert_eq!(lexer.next(), Token { tag: Tag::Semicolon, range: 27..28 });
    assert_eq!(lexer.next(), Token { tag: Tag::RBrace, range: 29..30 });
    assert_eq!(lexer.next(), Token { tag: Tag::Eof, range: 31..31 });
}

#[test]
fn test_invalid_char() {
    let mut lexer = Lexer::load_test_str("int @ void\0");
    assert_eq!(lexer.next(), Token { tag: Tag::KInt, range: 0..3 });
    assert_eq!(lexer.next(), Token { tag: Tag::Invalid, range: 4..5 });
    assert_eq!(lexer.next(), Token { tag: Tag::KVoid, range: 6..10 });
}

#[test]
fn lexer_test_return_2() {
    let mut lexer = Lexer::load_test_str("int main(void) {\n  return 2;\n}\n");

    assert_eq!(lexer.next(), Token { tag: Tag::KInt, range: 0..3 });
    assert_eq!(lexer.next(), Token { tag: Tag::Identifier, range: 4..8 });
    assert_eq!(lexer.next(), Token { tag: Tag::LParen, range: 8..9 });
    assert_eq!(lexer.next(), Token { tag: Tag::KVoid, range: 9..13 });
    assert_eq!(lexer.next(), Token { tag: Tag::RParen, range: 13..14 });
    assert_eq!(lexer.next(), Token { tag: Tag::LBrace, range: 15..16 });
    assert_eq!(lexer.next(), Token { tag: Tag::KReturn, range: 19..25 });
    assert_eq!(lexer.next(), Token { tag: Tag::NumberLiteral, range: 26..27 });
    assert_eq!(lexer.next(), Token { tag: Tag::Semicolon, range: 27..28 });
    assert_eq!(lexer.next(), Token { tag: Tag::RBrace, range: 29..30 });
    assert_eq!(lexer.next(), Token { tag: Tag::Eof, range: 31..31 });
}

#[test]
fn lexer_test_invalid_char() {
    let mut lexer = Lexer::load_test_str("int @ void\0");
    assert_eq!(lexer.next(), Token { tag: Tag::KInt, range: 0..3 });
    assert_eq!(lexer.next(), Token { tag: Tag::Invalid, range: 4..5 });
    assert_eq!(lexer.next(), Token { tag: Tag::KVoid, range: 6..10 });
}

#[test]
fn test_keyword_lookup() {
    assert_eq!(Tag::get_keyword("int"), Some(Tag::KInt));
    assert_eq!(Tag::get_keyword("void"), Some(Tag::KVoid));
    assert_eq!(Tag::get_keyword("return"), Some(Tag::KReturn));
    assert_eq!(Tag::get_keyword("returns"), None);
    assert_eq!(Tag::get_keyword("in"), None);
    assert_eq!(Tag::get_keyword(""), None);
}

#[test]
fn test_operators_and_mid_token_end() {
    let mut lexer = Lexer::load_test_str("~-x123");
    assert_eq!(lexer.next(), Token { tag: Tag::OpComplement, range: 0..1 });
    assert_eq!(lexer.next(), Token { tag: Tag::OpNegation, range: 1..2 });
    assert_eq!(lexer.next(), Token { tag: Tag::Identifier, range: 2..6 });
    assert_eq!(lexer.next(), Token { tag: Tag::Eof, range: 6..6 });
}

#[test]
fn test_keyword_closed_by_end_of_buffer() {
    let mut lexer = Lexer::load_test_str("int");
    assert_eq!(lexer.next(), Token { tag: Tag::KInt, range: 0..3 });
    assert_eq!(lexer.next(), Token { tag: Tag::Eof, range: 3..3 });
}

#[test]
fn test_empty_buffer_gives_end_of_input() {
    let mut lexer = Lexer::load_test_str("");
    assert_eq!(lexer.next(), Token { tag: Tag::Eof, range: 0..0 });
}

/// Re-lexing the exact substring a token's span denotes yields a token
/// of the same kind.
#[test]
fn test_relex_token_substrings() {
    let source = "int main(void) {\n  return ~(-25);\n}\n";
    let mut lexer = Lexer::load_test_str(source);
    loop {
        let token = lexer.next();
        let substring = &source[token.range.clone()];
        let mut again = Lexer::load_test_str(substring);
        assert_eq!(again.next().tag, token.tag);
        if token.tag == Tag::Eof {
            break;
        }
    }
}
