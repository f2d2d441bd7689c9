use circuit_lang::Lexer;
use circuit_lang::LexerError;
use circuit_lang::TokenKind;

fn tokens_of(src: &str) -> Vec<TokenKind> {
    let mut lexer = Lexer::new(String::from(src));
    lexer.tokenize().expect("scan failed")
}

#[test]
fn scan_whitespace_and_comments_only() {
    let toks = tokens_of("   \t\r\n# a comment with AND, ( and !\n   \n# trailing");
    assert!(!toks.is_empty());
    assert_eq!(*toks.last().unwrap(), TokenKind::EOF);
    for t in &toks {
        assert!(matches!(t, TokenKind::Newline | TokenKind::EOF));
    }
}

#[test]
fn scan_empty_source() {
    assert_eq!(tokens_of(""), vec![TokenKind::EOF]);
}

#[test]
fn scan_keywords_case_insensitive() {
    assert_eq!(
        tokens_of("and AND And"),
        vec![TokenKind::And, TokenKind::And, TokenKind::And, TokenKind::EOF]
    );
    assert_eq!(
        tokens_of("inputs Outputs iN ouT xNoR subCircuit end"),
        vec![
            TokenKind::Inputs,
            TokenKind::Outputs,
            TokenKind::In,
            TokenKind::Out,
            TokenKind::Xnor,
            TokenKind::Subcircuit,
            TokenKind::End,
            TokenKind::EOF
        ]
    );
}

#[test]
fn scan_keyword_prefix_is_identifier() {
    // Keyword matching needs an exact full-token match, not a prefix.
    assert_eq!(
        tokens_of("AndGate"),
        vec![TokenKind::Identifier(String::from("AndGate")), TokenKind::EOF]
    );
}

#[test]
fn scan_identifier_keeps_original_case() {
    assert_eq!(
        tokens_of("Foo_1 bar"),
        vec![
            TokenKind::Identifier(String::from("Foo_1")),
            TokenKind::Identifier(String::from("bar")),
            TokenKind::EOF
        ]
    );
}

#[test]
fn scan_punctuation_and_newlines() {
    assert_eq!(
        tokens_of("a,(b)\nc"),
        vec![
            TokenKind::Identifier(String::from("a")),
            TokenKind::Comma,
            TokenKind::ParenOpen,
            TokenKind::Identifier(String::from("b")),
            TokenKind::ParenClose,
            TokenKind::Newline,
            TokenKind::Identifier(String::from("c")),
            TokenKind::EOF
        ]
    );
}

#[test]
fn scan_eof_is_idempotent() {
    let mut lexer = Lexer::new(String::from("x"));
    assert_eq!(
        lexer.get_next_token().unwrap(),
        TokenKind::Identifier(String::from("x"))
    );
    assert_eq!(lexer.get_next_token().unwrap(), TokenKind::EOF);
    assert_eq!(lexer.get_next_token().unwrap(), TokenKind::EOF);
    assert_eq!(lexer.get_next_token().unwrap(), TokenKind::EOF);
}

#[test]
fn scan_unexpected_character_with_location() {
    let mut lexer = Lexer::new(String::from("ab\n  !"));
    assert_eq!(
        lexer.get_next_token().unwrap(),
        TokenKind::Identifier(String::from("ab"))
    );
    assert_eq!(lexer.get_next_token().unwrap(), TokenKind::Newline);
    match lexer.get_next_token() {
        Err(LexerError::UnexpectedCharacter(c, loc)) => {
            assert_eq!(c, '!');
            assert_eq!(loc.line, 2);
            assert_eq!(loc.column, 3);
        }
        other => panic!("expected an unexpected-character error, got {:?}", other),
    }
}

#[test]
fn scan_error_message_text() {
    let mut lexer = Lexer::new(String::from("!"));
    let err = lexer.get_next_token().unwrap_err();
    assert_eq!(
        err.message(),
        String::from("Unexpected character '!' at line 1, column 1")
    );
}

#[test]
fn scan_error_message_multi_digit_location() {
    // Eleven blank lines, then column 12 on line 12.
    let mut src = String::new();
    for _ in 0..11 {
        src.push('\n');
    }
    src.push_str("           ?");
    let mut lexer = Lexer::new(src);
    let mut last = lexer.get_next_token();
    loop {
        match &last {
            Ok(TokenKind::Newline) => {
                last = lexer.get_next_token();
            }
            _ => break,
        }
    }
    let err = last.unwrap_err();
    assert_eq!(
        err.message(),
        String::from("Unexpected character '?' at line 12, column 12")
    );
}

#[test]
fn scan_identifier_at_bad_position_is_invalid() {
    // `identifier` invoked where no identifier character stands scans
    // nothing and reports the defensive invalid-identifier error.
    let mut lexer = Lexer::new(String::from(",x"));
    match lexer.identifier() {
        Err(LexerError::InvalidIdentifier(text, loc)) => {
            assert_eq!(text, String::new());
            assert_eq!(loc.line, 1);
            assert_eq!(loc.column, 1);
            assert_eq!(
                LexerError::InvalidIdentifier(text, loc).message(),
                String::from("Invalid identifier '' at line 1, column 1")
            );
        }
        other => panic!("expected an invalid-identifier error, got {:?}", other),
    }
}

#[test]
fn scan_comment_hides_everything_to_line_end() {
    assert_eq!(
        tokens_of("a # b , ( ) AND\nc"),
        vec![
            TokenKind::Identifier(String::from("a")),
            TokenKind::Identifier(String::from("c")),
            TokenKind::EOF
        ]
    );
}

#[test]
fn scan_comment_swallows_its_line_break() {
    // The comment consumes the line break that ends it, so none is emitted.
    assert_eq!(
        tokens_of("# only a comment\n"),
        vec![TokenKind::EOF]
    );
}
