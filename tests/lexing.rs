use qasm::lexer::{is_alphanumeric, is_letter};
use qasm::token::lookup_ident;
use qasm::{lex, Lexer, Token};

fn id(s: &str) -> Token {
    Token::Id(s.to_string())
}

#[test]
fn is_letter_test() {
    assert!(is_letter('_'));
    assert!(is_letter('a'));
    assert!(is_letter('Z'));

    assert!(!is_letter('*'));
    assert!(!is_letter('1'));
}

#[test]
fn lookup_ident_test() {
    assert_eq!(lookup_ident("opaque"), Token::Opaque);
}

#[test]
fn lookup_ident_keeps_other_words() {
    assert_eq!(lookup_ident("OPENQASM"), Token::OpenQASM);
    assert_eq!(lookup_ident("openqasm"), id("openqasm"));
    assert_eq!(lookup_ident("pi"), Token::Pi);
    assert_eq!(lookup_ident("CX"), id("CX"));
}

#[test]
fn alphanumeric_continues_identifiers() {
    assert!(is_alphanumeric('7'));
    assert!(is_alphanumeric('_'));
    assert!(is_alphanumeric('q'));
    assert!(!is_alphanumeric('['));
}

#[test]
fn lexes_documented_example() {
    let tokens = lex("\nOPENQASM 2.0;\nqreg a[3];\nCX a[0], a[1];\n");
    assert_eq!(
        tokens,
        vec![
            Token::OpenQASM,
            Token::Real("2.0".to_string()),
            Token::Semicolon,
            Token::QReg,
            id("a"),
            Token::LSParen,
            Token::NNInteger(3),
            Token::RSParen,
            Token::Semicolon,
            id("CX"),
            id("a"),
            Token::LSParen,
            Token::NNInteger(0),
            Token::RSParen,
            Token::Comma,
            id("a"),
            Token::LSParen,
            Token::NNInteger(1),
            Token::RSParen,
            Token::Semicolon,
        ]
    );
}

#[test]
fn lexes_operators_and_functions() {
    let tokens = lex("-> - == + * / ^ { } ( ) sin cos tan exp ln sqrt pi");
    assert_eq!(
        tokens,
        vec![
            Token::Arrow,
            Token::Minus,
            Token::Equals,
            Token::Plus,
            Token::Times,
            Token::Divide,
            Token::Power,
            Token::LCParen,
            Token::RCParen,
            Token::LParen,
            Token::RParen,
            Token::Sin,
            Token::Cos,
            Token::Tan,
            Token::Exp,
            Token::Ln,
            Token::Sqrt,
            Token::Pi,
        ]
    );
}

#[test]
fn lexes_keywords() {
    let tokens = lex("qreg creg barrier gate measure reset include opaque if");
    assert_eq!(
        tokens,
        vec![
            Token::QReg,
            Token::CReg,
            Token::Barrier,
            Token::Gate,
            Token::Measure,
            Token::Reset,
            Token::Include,
            Token::Opaque,
            Token::If,
        ]
    );
}

#[test]
fn lone_equals_is_illegal() {
    assert_eq!(lex("a = b"), vec![id("a"), Token::Illegal, id("b")]);
}

#[test]
fn unknown_character_is_illegal() {
    assert_eq!(lex("q # 1"), vec![id("q"), Token::Illegal, Token::NNInteger(1)]);
}

#[test]
fn numbers_and_reals() {
    assert_eq!(lex("42"), vec![Token::NNInteger(42)]);
    assert_eq!(lex("0.5"), vec![Token::Real("0.5".to_string())]);
    assert_eq!(lex("2."), vec![Token::Real("2.".to_string())]);
    assert_eq!(lex("2147483647"), vec![Token::NNInteger(2147483647)]);
}

#[test]
fn number_out_of_range_is_illegal() {
    assert_eq!(lex("2147483648"), vec![Token::Illegal]);
}

#[test]
fn number_with_two_points_is_illegal() {
    assert_eq!(lex("1.2.3;"), vec![Token::Illegal, Token::Semicolon]);
}

#[test]
fn minus_before_number_is_its_own_token() {
    assert_eq!(lex("-3"), vec![Token::Minus, Token::NNInteger(3)]);
}

#[test]
fn identifiers_take_digits_and_underscores() {
    assert_eq!(lex("q_1[0]"), vec![id("q_1"), Token::LSParen, Token::NNInteger(0), Token::RSParen]);
}

#[test]
fn whitespace_of_all_kinds_is_skipped() {
    assert_eq!(lex(" \t\r\n q \u{a0}\n"), vec![id("q")]);
    assert_eq!(lex(""), Vec::<Token>::new());
}

#[test]
fn lexer_ends_with_end_of_file() {
    let mut lexer = Lexer::new("h q;");
    assert_eq!(lexer.next_token(), id("h"));
    assert_eq!(lexer.next_token(), id("q"));
    assert_eq!(lexer.next_token(), Token::Semicolon);
    assert_eq!(lexer.next_token(), Token::EndOfFile);
    assert_eq!(lexer.next_token(), Token::EndOfFile);
}

#[test]
fn default_token_is_illegal() {
    assert_eq!(Token::default(), Token::Illegal);
}
