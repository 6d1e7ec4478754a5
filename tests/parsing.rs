use qasm::parser::{
    is_version_two, match_argument, match_argument_list, match_id_list, match_mathexpr,
    match_mathexpr_list, TokenStream,
};
use qasm::{lex, parse, Argument, AstNode, Error, Token};

fn s(x: &str) -> String {
    x.to_string()
}

fn qubit(name: &str, i: i32) -> Argument {
    Argument::Qubit(s(name), i)
}

fn parse_source(source: &str) -> Result<Vec<AstNode>, Error> {
    let tokens = lex(source);
    parse(&tokens)
}

#[test]
fn other_versions_are_unsupported() {
    assert_eq!(parse_source("OPENQASM 1.0;"), Err(Error::UnsupportedVersion));
    assert_eq!(parse_source("OPENQASM 3.0; qreg q[1];"), Err(Error::UnsupportedVersion));
    assert_eq!(parse_source("OPENQASM 2.5;"), Err(Error::UnsupportedVersion));
    assert_eq!(parse_source("OPENQASM 20.0;"), Err(Error::UnsupportedVersion));
}

#[test]
fn missing_header_is_missing_version() {
    assert_eq!(parse_source("qreg q[1];"), Err(Error::MissingVersion));
    assert_eq!(parse_source(""), Err(Error::MissingVersion));
}

#[test]
fn equal_spellings_of_two() {
    assert!(is_version_two(&s("2.0")));
    assert!(is_version_two(&s("02.000")));
    assert!(is_version_two(&s("2.")));
    assert!(is_version_two(&s("2")));
    assert!(!is_version_two(&s("2.01")));
    assert!(!is_version_two(&s("12.0")));
    assert!(!is_version_two(&s("")));
}

#[test]
fn header_errors() {
    assert_eq!(parse_source("OPENQASM 2;"), Err(Error::MissingReal));
    assert_eq!(parse_source("OPENQASM"), Err(Error::SourceError));
    assert_eq!(parse_source("OPENQASM 2.0"), Err(Error::SourceError));
    assert_eq!(parse_source("OPENQASM 2.0 qreg"), Err(Error::MissingSemicolon));
}

#[test]
fn minimal_program() {
    assert_eq!(parse_source("OPENQASM 2.0; qreg q[0];"), Ok(vec![AstNode::QReg(s("q"), 0)]));
    assert_eq!(parse_source("OPENQASM 2.0; qreg q[5];"), Ok(vec![AstNode::QReg(s("q"), 5)]));
    assert_eq!(parse_source("OPENQASM 2.0;"), Ok(vec![]));
}

#[test]
fn argument_round_trip() {
    let tokens = lex("q[3]");
    let mut stream = TokenStream::new(&tokens);
    assert_eq!(match_argument(&mut stream), Ok(qubit("q", 3)));
    assert!(stream.is_empty());

    let tokens = lex("q");
    let mut stream = TokenStream::new(&tokens);
    assert_eq!(match_argument(&mut stream), Ok(Argument::Register(s("q"))));
}

#[test]
fn argument_errors() {
    let tokens = lex("q[x]");
    let mut stream = TokenStream::new(&tokens);
    assert_eq!(match_argument(&mut stream), Err(Error::MissingInt));

    let tokens = lex("3");
    let mut stream = TokenStream::new(&tokens);
    assert_eq!(match_argument(&mut stream), Err(Error::MissingIdentifier));

    let tokens = lex("q[1;");
    let mut stream = TokenStream::new(&tokens);
    assert_eq!(match_argument(&mut stream), Err(Error::SourceError));
}

#[test]
fn identifier_lists_concatenate() {
    let tokens = lex("a, b, c");
    let mut stream = TokenStream::new(&tokens);
    let whole = match_id_list(&mut stream).unwrap();
    assert_eq!(whole, vec![s("a"), s("b"), s("c")]);

    let tokens = lex("a, b");
    let mut stream = TokenStream::new(&tokens);
    let mut first = match_id_list(&mut stream).unwrap();
    let tokens = lex("c");
    let mut stream = TokenStream::new(&tokens);
    let second = match_id_list(&mut stream).unwrap();
    first.extend(second);
    assert_eq!(whole, first);
}

#[test]
fn argument_list_stops_before_other_tokens() {
    let tokens = lex("q[0], r;");
    let mut stream = TokenStream::new(&tokens);
    assert_eq!(
        match_argument_list(&mut stream),
        Ok(vec![qubit("q", 0), Argument::Register(s("r"))])
    );
    assert_eq!(stream.peek(), Some(&Token::Semicolon));
}

#[test]
fn trailing_comma_in_list_fails() {
    let tokens = lex("a, ;");
    let mut stream = TokenStream::new(&tokens);
    assert_eq!(match_id_list(&mut stream), Err(Error::MissingIdentifier));
}

#[test]
fn parenthesized_expression_is_one_parameter() {
    let tokens = lex("(2*pi), 1)");
    let mut stream = TokenStream::new(&tokens);
    assert_eq!(
        match_mathexpr_list(&mut stream),
        Ok(vec![s(" (  2  *  pi  ) "), s(" 1 ")])
    );
    assert_eq!(stream.peek(), Some(&Token::RParen));

    assert_eq!(
        parse_source("OPENQASM 2.0; u1((2*pi)) q;"),
        Ok(vec![AstNode::ApplyGate(
            s("u1"),
            vec![Argument::Register(s("q"))],
            vec![s(" (  2  *  pi  ) ")]
        )])
    );
}

#[test]
fn expression_text_of_every_kind_of_token() {
    let tokens = lex("-sin(x)^2+cos(0.5)/tan(y)*exp(1)-ln(2)+sqrt(3)");
    let mut stream = TokenStream::new(&tokens);
    assert_eq!(
        match_mathexpr(&mut stream),
        Ok(s(" -  sin  (  x  )  ^  2  +  cos  (  0.5  )  /  tan  (  y  )  *  exp  (  1  )  -  ln  (  2  )  +  sqrt  (  3  ) "))
    );
    assert!(stream.is_empty());
}

#[test]
fn negative_integer_token_text() {
    let tokens = vec![Token::NNInteger(-12), Token::Comma];
    let mut stream = TokenStream::new(&tokens);
    assert_eq!(match_mathexpr(&mut stream), Ok(s(" -12 ")));
}

#[test]
fn expression_on_empty_stream_fails() {
    let tokens: Vec<Token> = vec![];
    let mut stream = TokenStream::new(&tokens);
    assert_eq!(match_mathexpr(&mut stream), Err(Error::SourceError));
}

#[test]
fn missing_open_bracket_is_source_error() {
    assert_eq!(parse_source("OPENQASM 2.0; qreg q 3];"), Err(Error::SourceError));
}

#[test]
fn end_to_end() {
    let source = "OPENQASM 2.0;\nqreg q[2];\ncreg c[2];\nh q[0];\nCX q[0],q[1];\nmeasure q[1] -> c[1];";
    let tokens = lex(source);
    let id = |x: &str| Token::Id(s(x));
    assert_eq!(
        tokens,
        vec![
            Token::OpenQASM,
            Token::Real(s("2.0")),
            Token::Semicolon,
            Token::QReg,
            id("q"),
            Token::LSParen,
            Token::NNInteger(2),
            Token::RSParen,
            Token::Semicolon,
            Token::CReg,
            id("c"),
            Token::LSParen,
            Token::NNInteger(2),
            Token::RSParen,
            Token::Semicolon,
            id("h"),
            id("q"),
            Token::LSParen,
            Token::NNInteger(0),
            Token::RSParen,
            Token::Semicolon,
            id("CX"),
            id("q"),
            Token::LSParen,
            Token::NNInteger(0),
            Token::RSParen,
            Token::Comma,
            id("q"),
            Token::LSParen,
            Token::NNInteger(1),
            Token::RSParen,
            Token::Semicolon,
            Token::Measure,
            id("q"),
            Token::LSParen,
            Token::NNInteger(1),
            Token::RSParen,
            Token::Arrow,
            id("c"),
            Token::LSParen,
            Token::NNInteger(1),
            Token::RSParen,
            Token::Semicolon,
        ]
    );
    assert_eq!(
        parse(&tokens),
        Ok(vec![
            AstNode::QReg(s("q"), 2),
            AstNode::CReg(s("c"), 2),
            AstNode::ApplyGate(s("h"), vec![qubit("q", 0)], vec![]),
            AstNode::ApplyGate(s("CX"), vec![qubit("q", 0), qubit("q", 1)], vec![]),
            AstNode::Measure(qubit("q", 1), qubit("c", 1)),
        ])
    );
}

#[test]
fn gate_definition() {
    assert_eq!(
        parse_source("OPENQASM 2.0; gate h a { u2(0,pi) a; }"),
        Ok(vec![AstNode::Gate(
            s("h"),
            vec![s("a")],
            vec![],
            vec![AstNode::ApplyGate(
                s("u2"),
                vec![Argument::Register(s("a"))],
                vec![s(" 0 "), s(" pi ")]
            )]
        )])
    );
}

#[test]
fn gate_with_parameters_and_several_applications() {
    assert_eq!(
        parse_source("OPENQASM 2.0; gate cu1(lambda) a,b { u1(lambda/2) a; cx a,b; }"),
        Ok(vec![AstNode::Gate(
            s("cu1"),
            vec![s("a"), s("b")],
            vec![s("lambda")],
            vec![
                AstNode::ApplyGate(
                    s("u1"),
                    vec![Argument::Register(s("a"))],
                    vec![s(" lambda  /  2 ")]
                ),
                AstNode::ApplyGate(
                    s("cx"),
                    vec![Argument::Register(s("a")), Argument::Register(s("b"))],
                    vec![]
                ),
            ]
        )])
    );
}

#[test]
fn gate_with_empty_body() {
    assert_eq!(
        parse_source("OPENQASM 2.0; gate id() a { }"),
        Ok(vec![AstNode::Gate(s("id"), vec![s("a")], vec![], vec![])])
    );
}

#[test]
fn gate_body_admits_only_applications() {
    assert_eq!(
        parse_source("OPENQASM 2.0; gate g a { measure a -> a; }"),
        Err(Error::MissingIdentifier)
    );
    assert_eq!(parse_source("OPENQASM 2.0; gate g a {"), Err(Error::SourceError));
    assert_eq!(parse_source("OPENQASM 2.0; gate g a { h a;"), Err(Error::SourceError));
}

#[test]
fn opaque_declaration() {
    assert_eq!(
        parse_source("OPENQASM 2.0; opaque magic(theta, phi) q, r[1];"),
        Ok(vec![AstNode::Opaque(
            s("magic"),
            vec![Argument::Register(s("q")), qubit("r", 1)],
            vec![s("theta"), s("phi")]
        )])
    );
    assert_eq!(
        parse_source("OPENQASM 2.0; opaque magic() q;"),
        Ok(vec![AstNode::Opaque(s("magic"), vec![Argument::Register(s("q"))], vec![])])
    );
}

#[test]
fn barrier_reset_and_if() {
    assert_eq!(
        parse_source("OPENQASM 2.0; barrier q; reset q[0]; if (c == 1) x q[0];"),
        Ok(vec![
            AstNode::Barrier(Argument::Register(s("q"))),
            AstNode::Reset(qubit("q", 0)),
            AstNode::If(
                s("c"),
                1,
                Box::new(AstNode::ApplyGate(s("x"), vec![qubit("q", 0)], vec![]))
            ),
        ])
    );
}

#[test]
fn if_guards_any_statement() {
    assert_eq!(
        parse_source("OPENQASM 2.0; if (c == 0) measure q -> c;"),
        Ok(vec![AstNode::If(
            s("c"),
            0,
            Box::new(AstNode::Measure(Argument::Register(s("q")), Argument::Register(s("c"))))
        )])
    );
    assert_eq!(parse_source("OPENQASM 2.0; if (c = 0) x q;"), Err(Error::SourceError));
}

#[test]
fn statement_errors() {
    assert_eq!(parse_source("OPENQASM 2.0; qreg q[2]"), Err(Error::SourceError));
    assert_eq!(parse_source("OPENQASM 2.0; qreg q[2] creg"), Err(Error::MissingSemicolon));
    assert_eq!(parse_source("OPENQASM 2.0; creg 3[2];"), Err(Error::MissingIdentifier));
    assert_eq!(parse_source("OPENQASM 2.0; creg c[x];"), Err(Error::MissingInt));
    assert_eq!(parse_source("OPENQASM 2.0; ;"), Err(Error::SourceError));
    assert_eq!(parse_source("OPENQASM 2.0; include q;"), Err(Error::SourceError));
    assert_eq!(parse_source("OPENQASM 2.0; h q[0] q[1];"), Err(Error::MissingSemicolon));
    assert_eq!(parse_source("OPENQASM 2.0; measure q c;"), Err(Error::SourceError));
}

#[test]
fn first_error_wins() {
    assert_eq!(
        parse_source("OPENQASM 2.0; qreg q[2]; creg c; h q[0];"),
        Err(Error::SourceError)
    );
}

#[test]
fn error_messages() {
    assert_eq!(Error::MissingSemicolon.message(), "Missing Semicolon");
    assert_eq!(
        Error::UnsupportedVersion.message(),
        "Unsupported Version. Please Use OpenQASM Version 2.0"
    );
    assert_eq!(Error::SourceError.message(), "There Was An Error In Your Source Code");
    assert_eq!(Error::MissingReal.message(), "Missing A Real Number");
    assert_eq!(Error::MissingInt.message(), "Missing An Integer");
    assert_eq!(Error::MissingIdentifier.message(), "Missing An Identifier");
    assert_eq!(
        Error::MissingVersion.message(),
        "Missing A Version Statement At The Start Of The File"
    );
}
